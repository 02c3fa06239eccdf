//! The steps of a local publication or recovery, in the order in which they are
//! carried out.

use crate::digest::{hex_digest, hex_sha256};
use crate::journal::{JournalRecord, JournalView};
use crate::text::same_text;
use vstd::prelude::*;

verus! {

/// Where a publication can be made to fail on purpose.
#[derive(Debug, Clone, Copy, PartialEq, Eq, Structural)]
pub enum FaultPoint {
    BeforeGalleryReplacement,
    AfterGalleryReplacement,
    BeforeGalleryJournal,
    AfterGalleryJournal,
    BeforeStateReplacement,
    AfterStateReplacement,
    BeforeStateJournal,
    AfterStateJournal,
    BeforeCommitted,
    AfterCommitted,
    AfterRestoreGallery,
    BeforeRestoreState,
}

/// One step. A step that replaces a file carries the digest that the file must
/// have afterwards.
#[derive(Debug, PartialEq, Eq)]
pub enum PublicationStep {
    /// Write the record as the current journal.
    WriteJournal(JournalRecord),
    /// Keep the active pair of the given generation in the backup directory.
    CreateBackup(String),
    /// Replace the active gallery by the staged one.
    InstallGallery(String),
    /// Replace the active state by the staged one.
    InstallState(String),
    /// Replace the active gallery by the one in the backup.
    RestoreGallery(String),
    /// Replace the active state by the one in the backup.
    RestoreState(String),
    /// Check both active files once more.
    VerifyActive(String, String),
    /// Fail on purpose.
    Fault(FaultPoint),
    /// Remove the staging directory.
    CleanStaging,
}

/// The mathematical form of a step.
pub enum StepView {
    WriteJournal(JournalView),
    CreateBackup(Seq<char>),
    InstallGallery(Seq<char>),
    InstallState(Seq<char>),
    RestoreGallery(Seq<char>),
    RestoreState(Seq<char>),
    VerifyActive(Seq<char>, Seq<char>),
    Fault(FaultPoint),
    CleanStaging,
}

impl View for PublicationStep {
    type V = StepView;

    open spec fn view(&self) -> StepView {
        match *self {
            PublicationStep::WriteJournal(record) => StepView::WriteJournal(record@),
            PublicationStep::CreateBackup(generation) => StepView::CreateBackup(generation@),
            PublicationStep::InstallGallery(hash) => StepView::InstallGallery(hash@),
            PublicationStep::InstallState(hash) => StepView::InstallState(hash@),
            PublicationStep::RestoreGallery(hash) => StepView::RestoreGallery(hash@),
            PublicationStep::RestoreState(hash) => StepView::RestoreState(hash@),
            PublicationStep::VerifyActive(gallery, state) => StepView::VerifyActive(
                gallery@,
                state@,
            ),
            PublicationStep::Fault(point) => StepView::Fault(point),
            PublicationStep::CleanStaging => StepView::CleanStaging,
        }
    }
}

/// The steps of a list.
pub open spec fn steps_view(steps: Seq<PublicationStep>) -> Seq<StepView> {
    Seq::new(steps.len(), |i: int| steps[i]@)
}

/// Appends a step.
pub fn push_step(steps: &mut Vec<PublicationStep>, step: PublicationStep)
    ensures
        steps_view(final(steps)@) == steps_view(old(steps)@).push(step@),
{
    let ghost before = steps@;
    steps.push(step);
    proof {
        assert(steps_view(steps@) =~= steps_view(before).push(step@));
    }
}

/// Steps to carry out in order, and the journal record that is current once all
/// of them are done where no fault is among them.
#[derive(Debug, PartialEq, Eq)]
pub struct PublicationPlan {
    pub steps: Vec<PublicationStep>,
    pub record: JournalRecord,
}

/// The mathematical form of a plan.
pub struct PlanView {
    pub steps: Seq<StepView>,
    pub record: JournalView,
}

impl View for PublicationPlan {
    type V = PlanView;

    open spec fn view(&self) -> PlanView {
        PlanView { steps: steps_view(self.steps@), record: self.record@ }
    }
}

/// Why a step did not do what it should.
#[derive(Debug, Clone, Copy, PartialEq, Eq, Structural)]
pub enum StepError {
    InstalledGalleryMismatch,
    InstalledStateMismatch,
    RestoredGalleryMismatch,
    RestoredStateMismatch,
    FinalHashesMismatch,
    InjectedFault,
}

/// What is wrong with the active files after a step. The contents are those of
/// the active gallery and the active state; a missing file has none.
pub open spec fn step_error(
    step: StepView,
    gallery: Option<Seq<u8>>,
    state: Option<Seq<u8>>,
) -> Option<StepError> {
    let gallery_hash = digest_of(gallery);
    let state_hash = digest_of(state);
    match step {
        StepView::InstallGallery(hash) if gallery_hash != Some(hash) => Some(
            StepError::InstalledGalleryMismatch,
        ),
        StepView::InstallState(hash) if state_hash != Some(hash) => Some(
            StepError::InstalledStateMismatch,
        ),
        StepView::RestoreGallery(hash) if gallery_hash != Some(hash) => Some(
            StepError::RestoredGalleryMismatch,
        ),
        StepView::RestoreState(hash) if state_hash != Some(hash) => Some(
            StepError::RestoredStateMismatch,
        ),
        StepView::VerifyActive(a, b) if gallery_hash != Some(a) || state_hash != Some(b) => Some(
            StepError::FinalHashesMismatch,
        ),
        StepView::Fault(_) => Some(StepError::InjectedFault),
        _ => None,
    }
}

/// The digest of a file's content; none for a missing file.
pub open spec fn digest_of(content: Option<Seq<u8>>) -> Option<Seq<char>> {
    match content {
        Some(bytes) => Some(hex_sha256(bytes)),
        None => None,
    }
}

/// Whether a file is there and has the digest.
pub fn has_digest(content: &Option<Vec<u8>>, hash: &str) -> (r: bool)
    ensures
        r == (digest_of(crate::journal::file_view(*content)) == Some(hash@)),
{
    match content {
        Some(bytes) => {
            let found: String = hex_digest(bytes.as_slice());
            same_text(found.as_str(), hash)
        },
        None => false,
    }
}

/// Checks the active files after a step.
pub fn check_step(
    step: &PublicationStep,
    gallery: &Option<Vec<u8>>,
    state: &Option<Vec<u8>>,
) -> (r: Result<(), StepError>)
    ensures
        match step_error(
            step@,
            crate::journal::file_view(*gallery),
            crate::journal::file_view(*state),
        ) {
            Some(e) => r == Err::<(), StepError>(e),
            None => r is Ok,
        },
{
    match step {
        PublicationStep::InstallGallery(hash) => {
            if !has_digest(gallery, hash.as_str()) {
                return Err(StepError::InstalledGalleryMismatch);
            }
        },
        PublicationStep::InstallState(hash) => {
            if !has_digest(state, hash.as_str()) {
                return Err(StepError::InstalledStateMismatch);
            }
        },
        PublicationStep::RestoreGallery(hash) => {
            if !has_digest(gallery, hash.as_str()) {
                return Err(StepError::RestoredGalleryMismatch);
            }
        },
        PublicationStep::RestoreState(hash) => {
            if !has_digest(state, hash.as_str()) {
                return Err(StepError::RestoredStateMismatch);
            }
        },
        PublicationStep::VerifyActive(a, b) => {
            if !has_digest(gallery, a.as_str()) || !has_digest(state, b.as_str()) {
                return Err(StepError::FinalHashesMismatch);
            }
        },
        PublicationStep::Fault(_) => {
            return Err(StepError::InjectedFault);
        },
        _ => {},
    }
    Ok(())
}

} // verus!
