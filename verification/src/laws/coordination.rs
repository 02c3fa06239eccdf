//! When an integrated publication starts, and what it does in which order.

use crate::coordinator::{
    all_confirmed, coordination_action, coordination_started, coordination_step, file_statuses,
    first_unsettled, law_adoption_comes_first, law_safe_iff_all_confirmed, object_statuses,
    unsafe_ledger_text, CoordinationActionView, CoordinationErrorView, CoordinationEventView,
    CoordinationRun, CoordinationStageView, HostingReportView, PublicationReportView,
    RepositoryReportView, StorageReportView,
};
use crate::executor::StorageErrorView;
use crate::hosting::HostingErrorView;
use crate::inventory::{ascending_entries, is_listed, lemma_listed_entries};
use crate::ledger::{ledger_valid, status_text, LedgerFailureView, LedgerView, OperationState};
use crate::planner::{desired_error, DesiredView, IntegrationPlanView};
use crate::repository::RepositoryErrorView;
use vstd::prelude::*;

verus! {

/// Whether a plan has an operation on the storage.
pub open spec fn has_storage_work(plan: IntegrationPlanView) -> bool {
    exists|i: int|
        0 <= i < plan.operations.len() && (#[trigger] plan.operations[i] is PutStorage
            || plan.operations[i] is DeleteStorage)
}

/// Whether a plan has an operation on the repository.
pub open spec fn has_repository_work(plan: IntegrationPlanView) -> bool {
    exists|i: int|
        0 <= i < plan.operations.len() && (#[trigger] plan.operations[i] is WriteRepository
            || plan.operations[i] is DeleteRepository)
}

/// Whether a plan has an operation on the hosting.
pub open spec fn has_hosting_work(plan: IntegrationPlanView) -> bool {
    exists|i: int|
        0 <= i < plan.operations.len() && #[trigger] plan.operations[i] is PublishHosting
}

/// A plan with open requirements is refused with all of them, and the ledger
/// stays as it is.
pub proof fn law_open_requirements_block(
    plan: IntegrationPlanView,
    desired: DesiredView,
    ledger: LedgerView,
)
    requires
        plan.requirements.len() > 0,
    ensures
        ({
            let run = coordination_started(plan, desired, ledger);
            &&& run.stage == CoordinationStageView::Done(
                Some(CoordinationErrorView::Blocked(plan.requirements)),
            )
            &&& run.ledger == ledger
            &&& coordination_action(run) is Finished
        }),
{
}

/// A ledger that holds an object, a file or a deployment that is not confirmed is
/// refused as unsafe, and stays as it is.
pub proof fn law_unconfirmed_entries_block(
    plan: IntegrationPlanView,
    desired: DesiredView,
    ledger: LedgerView,
)
    requires
        is_listed(ledger.r2_inventory),
        is_listed(ledger.github_inventory),
        plan.requirements.len() == 0,
        (exists|key: Seq<char>| #[trigger]
            ledger.r2_inventory.dom().contains(key) && ledger.r2_inventory[key].status
                != OperationState::Confirmed) || (exists|path: Seq<char>| #[trigger]
            ledger.github_inventory.dom().contains(path) && ledger.github_inventory[path].status
                != OperationState::Confirmed) || (ledger.vercel is Some && ledger.vercel->0.status
            != OperationState::Confirmed),
    ensures
        ({
            let run = coordination_started(plan, desired, ledger);
            &&& run.stage matches CoordinationStageView::Done(
                Some(CoordinationErrorView::UnsafeLedger(_)),
            )
            &&& run.ledger == ledger
            &&& coordination_action(run) is Finished
        }),
{
    law_safe_iff_all_confirmed(ledger);
}

/// A publication under another configuration than the ledger's is refused as one
/// that does not continue it, and the ledger stays as it is.
pub proof fn law_other_configuration_is_refused(
    plan: IntegrationPlanView,
    desired: DesiredView,
    ledger: LedgerView,
)
    requires
        is_listed(ledger.r2_inventory),
        is_listed(ledger.github_inventory),
        plan.requirements.len() == 0,
        all_confirmed(ledger),
        desired.configuration_fingerprint != ledger.configuration_fingerprint,
    ensures
        ({
            let run = coordination_started(plan, desired, ledger);
            &&& run.stage matches CoordinationStageView::Done(
                Some(CoordinationErrorView::ProvenanceMismatch(_)),
            )
            &&& run.ledger == ledger
            &&& coordination_action(run) is Finished
        }),
{
    law_safe_iff_all_confirmed(ledger);
}

/// The generation that the ledger names, with another state or another manifest,
/// is refused as one that does not continue it, and the ledger stays as it is.
pub proof fn law_changed_generation_is_refused(
    plan: IntegrationPlanView,
    desired: DesiredView,
    ledger: LedgerView,
)
    requires
        is_listed(ledger.r2_inventory),
        is_listed(ledger.github_inventory),
        plan.requirements.len() == 0,
        all_confirmed(ledger),
        desired.local.generation == ledger.local_generation,
        desired.local.state_hash != ledger.state_hash || desired.local.manifest_hash
            != ledger.manifest_hash,
    ensures
        ({
            let run = coordination_started(plan, desired, ledger);
            &&& run.stage matches CoordinationStageView::Done(
                Some(CoordinationErrorView::ProvenanceMismatch(_)),
            )
            &&& run.ledger == ledger
            &&& coordination_action(run) is Finished
        }),
{
    law_safe_iff_all_confirmed(ledger);
}

/// A publication that continues a safe ledger is accepted. One of the generation
/// that the ledger names leaves the ledger as it is and goes on to the work of the
/// plan. One of another generation makes the ledger name its generation and hashes,
/// keeps everything that the ledger knows of objects, files and hosting, and asks
/// for that ledger to be written first.
pub proof fn law_continuing_publication_starts(
    plan: IntegrationPlanView,
    desired: DesiredView,
    ledger: LedgerView,
)
    requires
        ledger_valid(ledger),
        desired_error(desired) is None,
        plan.requirements.len() == 0,
        all_confirmed(ledger),
        desired.configuration_fingerprint == ledger.configuration_fingerprint,
        desired.local.generation == ledger.local_generation ==> desired.local.state_hash
            == ledger.state_hash && desired.local.manifest_hash == ledger.manifest_hash,
    ensures
        ({
            let run = coordination_started(plan, desired, ledger);
            &&& run.ledger.local_generation == desired.local.generation
            &&& run.ledger.state_hash == desired.local.state_hash
            &&& run.ledger.manifest_hash == desired.local.manifest_hash
            &&& run.ledger.configuration_fingerprint == desired.configuration_fingerprint
            &&& run.ledger.r2_inventory == ledger.r2_inventory
            &&& run.ledger.github_inventory == ledger.github_inventory
            &&& run.ledger.vercel == ledger.vercel
            &&& run.report.storage is None && run.report.repository is None
                && run.report.hosting is None
            &&& if desired.local.generation == ledger.local_generation {
                &&& run.ledger == ledger
                &&& first_work(run, plan)
            } else {
                coordination_action(run) == CoordinationActionView::Persist(run.ledger)
                    && run.stage is Adopt
            }
        }),
{
    law_safe_iff_all_confirmed(ledger);
    if desired.local.generation != ledger.local_generation {
        law_adoption_comes_first(plan, desired, ledger);
    } else {
        lemma_first_work(coordination_started(plan, desired, ledger), plan, desired, ledger);
    }
}

/// Whether a run stands before the first work of its plan: storage, where there is
/// any, or else the repository, or else hosting, or else its end without an error.
pub open spec fn first_work(run: CoordinationRun, plan: IntegrationPlanView) -> bool {
    coordination_action(run) == if has_storage_work(plan) {
        CoordinationActionView::Storage(run.ledger)
    } else if has_repository_work(plan) {
        CoordinationActionView::Repository(run.ledger)
    } else if has_hosting_work(plan) {
        CoordinationActionView::Hosting(run.ledger)
    } else {
        CoordinationActionView::Finished
    } && (coordination_action(run) is Finished ==> run.stage == CoordinationStageView::Done(None))
}

proof fn lemma_first_work(
    run: CoordinationRun,
    plan: IntegrationPlanView,
    desired: DesiredView,
    ledger: LedgerView,
)
    requires
        run == coordination_started(plan, desired, ledger),
        run.stage is Storage || run.stage is Repository || run.stage is Hosting || run.stage
            == CoordinationStageView::Done(None),
    ensures
        first_work(run, plan),
{
    lemma_families(plan, desired, ledger);
}

/// A run knows which work its plan has.
proof fn lemma_families(plan: IntegrationPlanView, desired: DesiredView, ledger: LedgerView)
    ensures
        ({
            let families = coordination_started(plan, desired, ledger).families;
            &&& families.storage <==> has_storage_work(plan)
            &&& families.repository <==> has_repository_work(plan)
            &&& families.hosting <==> has_hosting_work(plan)
        }),
{
    let families = coordination_started(plan, desired, ledger).families;
    let operations = plan.operations;
    if has_storage_work(plan) {
        let i = choose|i: int|
            0 <= i < operations.len() && (#[trigger] operations[i] is PutStorage
                || operations[i] is DeleteStorage);
        assert(families.storage);
    }
    if has_repository_work(plan) {
        let i = choose|i: int|
            0 <= i < operations.len() && (#[trigger] operations[i] is WriteRepository
                || operations[i] is DeleteRepository);
        assert(families.repository);
    }
}

/// Once the adopted ledger is written a run goes on to the first work of its plan,
/// on that ledger; where it could not be written it ends with that error, on what
/// the disk holds.
pub proof fn law_written_adoption_goes_on(
    plan: IntegrationPlanView,
    desired: DesiredView,
    ledger: LedgerView,
    durable: Option<LedgerView>,
    message: Seq<char>,
)
    requires
        coordination_started(plan, desired, ledger).stage is Adopt,
    ensures
        ({
            let run = coordination_started(plan, desired, ledger);
            let written = coordination_step(run, CoordinationEventView::Persisted);
            let refused = coordination_step(
                run,
                CoordinationEventView::NotPersisted(durable, message),
            );
            &&& written.ledger == run.ledger
            &&& first_work(written, plan)
            &&& refused.stage == CoordinationStageView::Done(
                Some(
                    CoordinationErrorView::Ledger(LedgerFailureView::NotPersisted(message)),
                ),
            )
            &&& refused.ledger == match durable {
                Some(on_disk) => on_disk,
                None => run.ledger,
            }
        }),
{
    lemma_families(plan, desired, ledger);
}

/// A phase that ends well hands its ledger on, is reported as it was, keeps what was
/// reported before, and is followed by the next phase that has work.
pub proof fn law_finished_phase_is_handed_on(
    plan: IntegrationPlanView,
    desired: DesiredView,
    ledger: LedgerView,
    run: CoordinationRun,
    left: LedgerView,
    storage: StorageReportView,
    repository: RepositoryReportView,
    hosting: HostingReportView,
)
    requires
        run.families == coordination_started(plan, desired, ledger).families,
    ensures
        ({
            let event = CoordinationEventView::StorageEnded(left, Ok(storage));
            let after = coordination_step(run, event);
            run.stage is Storage ==> after.ledger == left && after.report == (
            PublicationReportView { storage: Some(storage), ..run.report })
                && coordination_action(after) == if has_repository_work(plan) {
                CoordinationActionView::Repository(left)
            } else if has_hosting_work(plan) {
                CoordinationActionView::Hosting(left)
            } else {
                CoordinationActionView::Finished
            } && (coordination_action(after) is Finished ==> after.stage
                == CoordinationStageView::Done(None))
        }),
        ({
            let event = CoordinationEventView::RepositoryEnded(left, Ok(repository));
            let after = coordination_step(run, event);
            run.stage is Repository ==> after.ledger == left && after.report == (
            PublicationReportView { repository: Some(repository), ..run.report })
                && coordination_action(after) == if has_hosting_work(plan) {
                CoordinationActionView::Hosting(left)
            } else {
                CoordinationActionView::Finished
            } && (coordination_action(after) is Finished ==> after.stage
                == CoordinationStageView::Done(None))
        }),
        ({
            let event = CoordinationEventView::HostingEnded(left, Ok(hosting));
            let after = coordination_step(run, event);
            run.stage is Hosting ==> after.ledger == left && after.report == (
            PublicationReportView { hosting: Some(hosting), ..run.report }) && after.stage
                == CoordinationStageView::Done(None)
        }),
{
    lemma_families(plan, desired, ledger);
}

/// A phase that fails hands its ledger on too: what it left is what the run ends
/// with.
pub proof fn law_failed_phase_keeps_its_ledger(
    run: CoordinationRun,
    event: CoordinationEventView,
    left: LedgerView,
)
    requires
        match (run.stage, event) {
            (CoordinationStageView::Storage, CoordinationEventView::StorageEnded(l, Err(_))) => l
                == left,
            (CoordinationStageView::Repository, CoordinationEventView::RepositoryEnded(l, Err(_))) =>
                l == left,
            (CoordinationStageView::Hosting, CoordinationEventView::HostingEnded(l, Err(_))) => l
                == left,
            _ => false,
        },
    ensures
        coordination_step(run, event).ledger == left,
        coordination_action(coordination_step(run, event)) is Finished,
        coordination_step(run, event).stage matches CoordinationStageView::Done(Some(_)),
{
}

/// A phase that fails ends the run with its own error, and what was reported before
/// stays reported.
pub proof fn law_failed_phase_ends_the_run(
    run: CoordinationRun,
    left: LedgerView,
    storage: StorageErrorView,
    repository: RepositoryErrorView,
    hosting: HostingErrorView,
)
    ensures
        run.stage is Storage ==> ({
            let after = coordination_step(
                run,
                CoordinationEventView::StorageEnded(left, Err(storage)),
            );
            after.report == run.report && after.stage == CoordinationStageView::Done(
                Some(CoordinationErrorView::Storage(storage)),
            )
        }),
        run.stage is Repository ==> ({
            let after = coordination_step(
                run,
                CoordinationEventView::RepositoryEnded(left, Err(repository)),
            );
            after.report == run.report && after.stage == CoordinationStageView::Done(
                Some(CoordinationErrorView::Repository(repository)),
            )
        }),
        run.stage is Hosting ==> ({
            let after = coordination_step(
                run,
                CoordinationEventView::HostingEnded(left, Err(hosting)),
            );
            after.report == run.report && after.stage == CoordinationStageView::Done(
                Some(CoordinationErrorView::Hosting(hosting)),
            )
        }),
{
}

/// A run that waits for something is not moved by anything else.
pub proof fn law_coordination_waits(run: CoordinationRun, event: CoordinationEventView)
    requires
        match run.stage {
            CoordinationStageView::Adopt => !(event is Persisted) && !(event is NotPersisted),
            CoordinationStageView::Storage => !(event is StorageEnded),
            CoordinationStageView::Repository => !(event is RepositoryEnded),
            CoordinationStageView::Hosting => !(event is HostingEnded),
            CoordinationStageView::Done(_) => true,
        },
    ensures
        coordination_step(run, event) == run,
{
}

/// A ledger that is unsafe is described by an object, a file or a deployment that is
/// not confirmed, and by its state.
pub proof fn law_unsafe_ledger_is_described(ledger: LedgerView)
    requires
        is_listed(ledger.r2_inventory),
        is_listed(ledger.github_inventory),
    ensures
        unsafe_ledger_text(ledger) matches Some(text) ==> {
            ||| exists|key: Seq<char>| #[trigger]
                ledger.r2_inventory.dom().contains(key) && ledger.r2_inventory[key].status
                    != OperationState::Confirmed && text == "storage object "@ + key + " is "@
                    + status_text(ledger.r2_inventory[key].status)
            ||| exists|path: Seq<char>| #[trigger]
                ledger.github_inventory.dom().contains(path) && ledger.github_inventory[path].status
                    != OperationState::Confirmed && text == "repository file "@ + path + " is "@
                    + status_text(ledger.github_inventory[path].status)
            ||| ledger.vercel is Some && ledger.vercel->0.status != OperationState::Confirmed
                && text == "hosting publication is "@ + status_text(ledger.vercel->0.status)
        },
{
    let objects = object_statuses(ledger);
    let files = file_statuses(ledger);
    lemma_listed_entries(ledger.r2_inventory);
    lemma_listed_entries(ledger.github_inventory);
    if first_unsettled(objects, 0) is Some {
        let i = lemma_first_unsettled(objects, 0);
        assert(ledger.r2_inventory.dom().contains(ascending_entries(ledger.r2_inventory)[i].0));
    } else if first_unsettled(files, 0) is Some {
        let i = lemma_first_unsettled(files, 0);
        assert(ledger.github_inventory.dom().contains(
            ascending_entries(ledger.github_inventory)[i].0,
        ));
    }
}

proof fn lemma_first_unsettled(s: Seq<(Seq<char>, OperationState)>, from: int) -> (i: int)
    requires
        0 <= from,
        first_unsettled(s, from) is Some,
    ensures
        from <= i < s.len(),
        first_unsettled(s, from) == Some(s[i]),
        s[i].1 != OperationState::Confirmed,
    decreases s.len() - from,
{
    if s[from].1 != OperationState::Confirmed {
        from
    } else {
        lemma_first_unsettled(s, from + 1)
    }
}

} // verus!
