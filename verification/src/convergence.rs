//! What planning and execution promise together: a plan names each thing once
//! and in order, unsettled entries block it, the executors accept it, and once
//! it is carried out nothing is left to plan.

use crate::bundle::BundleView;
use crate::coordinator::coordination_started;
use crate::executor::{
    intended_object, is_storage_operation, law_successful_storage_run_publishes_all,
    lemma_storage_steps_in_step, objects_published, operation_key, r2_entry, storage_entered,
    storage_started, storage_step, storage_steps, StorageErrorView, StorageEventView, StorageRun,
    StorageStageView,
};
use crate::hosting::{
    hosting_fingerprint, hosting_fingerprints, hosting_started, hosting_steps,
    law_no_hosting_operation_changes_nothing, law_successful_hosting_run_publishes,
    HostingEventView, HostingRun, HostingStageView,
};
use crate::inventory::{ascending_entries, is_listed, lemma_listed, lemma_listed_entries};
use crate::ledger::{r2_entry_of, LedgerView, OperationState};
use crate::planner::{
    delete_operation, desired_error, file_requirement, has_invalid_known_key,
    has_invalid_known_path, hosting_operations, hosting_requirements, known_file, known_hosting,
    known_object, known_of, need_of, object_requirement, plan_of, put_operation, remove_operation,
    repository_operations, repository_requirements, stale_file_requirement,
    stale_object_requirement, storage_operations, storage_requirements, well_keyed, well_listed,
    write_operation, DesiredView, IntegrationPlanView, KnownView, Need, OperationView, PlannerError,
    RequirementView,
};
use crate::repository::{
    github_entry, guard_text, guards_text, in_batch, is_published, is_repository_operation,
    law_successful_repository_run_publishes_all, operation_path, paths_distinct, repository_started,
    repository_steps, same_file, RepositoryEventView, RepositoryStageView,
};
use crate::sequences::{
    lemma_all_kept, lemma_kept_sum, lemma_none_kept, lemma_none_selected, lemma_selected,
    lemma_selected_from, lemma_selected_in_order, lemma_selected_sum,
};
use crate::text::lemma_text_lt_irreflexive;
use vstd::prelude::*;

verus! {

// ---------------------------------------------------------------------------
// Plans
// ---------------------------------------------------------------------------
/// Whether every desired object is confirmed as desired, and no other is known.
pub open spec fn objects_settled(desired: DesiredView, known: KnownView) -> bool {
    &&& forall|k: Seq<char>| #[trigger]
        desired.storage.dom().contains(k) ==> known_object(known, k) == Some(
            (OperationState::Confirmed, desired.storage[k].sha256),
        )
    &&& forall|k: Seq<char>| #[trigger]
        known.storage.dom().contains(k) ==> desired.storage.dom().contains(k)
}

/// Whether every desired file is confirmed as desired, and no other is known.
pub open spec fn files_settled(desired: DesiredView, known: KnownView) -> bool {
    &&& forall|k: Seq<char>| #[trigger]
        desired.repository.dom().contains(k) ==> known_file(known, k) == Some(
            (OperationState::Confirmed, desired.repository[k].sha256),
        )
    &&& forall|k: Seq<char>| #[trigger]
        known.repository.dom().contains(k) ==> desired.repository.dom().contains(k)
}

/// Whether everything desired is confirmed as desired, and nothing else is
/// known.
pub open spec fn settled(desired: DesiredView, known: KnownView) -> bool {
    &&& objects_settled(desired, known)
    &&& files_settled(desired, known)
    &&& known_hosting(known) == Some((OperationState::Confirmed, desired.bundle_fingerprint))
}

proof fn lemma_storage_empty(desired: DesiredView, known: KnownView)
    requires
        well_keyed(desired),
        well_listed(known),
    ensures
        storage_operations(desired, known).len() == 0 && storage_requirements(
            desired,
            known,
        ).len() == 0 <==> objects_settled(desired, known),
{
    reveal(well_keyed);
    reveal(well_listed);
    reveal(storage_operations);
    reveal(storage_requirements);
    let wanted = ascending_entries(desired.storage);
    let found = ascending_entries(known.storage);
    lemma_listed_entries(desired.storage);
    lemma_listed_entries(known.storage);
    if storage_operations(desired, known).len() == 0 && storage_requirements(
        desired,
        known,
    ).len() == 0 {
        assert forall|k: Seq<char>| #[trigger]
            desired.storage.dom().contains(k) implies known_object(known, k) == Some(
            (OperationState::Confirmed, desired.storage[k].sha256),
        ) by {
            let i = choose|i: int|
                0 <= i < wanted.len() && #[trigger] wanted[i] == (k, desired.storage[k]);
            if put_operation(known)(wanted[i]) is Some {
                let p = lemma_selected(wanted, put_operation(known), i);
            }
            if object_requirement(known)(wanted[i]) is Some {
                let p = lemma_selected(wanted, object_requirement(known), i);
            }
        }
        assert forall|k: Seq<char>| #[trigger]
            known.storage.dom().contains(k) implies desired.storage.dom().contains(k) by {
            let i = choose|i: int|
                0 <= i < found.len() && #[trigger] found[i] == (k, known.storage[k]);
            if delete_operation(desired)(found[i]) is Some {
                let p = lemma_selected(found, delete_operation(desired), i);
            }
            if stale_object_requirement(desired)(found[i]) is Some {
                let p = lemma_selected(found, stale_object_requirement(desired), i);
            }
        }
    }
    if objects_settled(desired, known) {
        assert forall|i: int| 0 <= i < wanted.len() implies put_operation(known)(
            #[trigger] wanted[i],
        ) is None && object_requirement(known)(wanted[i]) is None by {
            assert(desired.storage.dom().contains(wanted[i].0));
        }
        assert forall|i: int| 0 <= i < found.len() implies delete_operation(desired)(
            #[trigger] found[i],
        ) is None && stale_object_requirement(desired)(found[i]) is None by {
            assert(known.storage.dom().contains(found[i].0));
        }
        lemma_none_selected(wanted, put_operation(known));
        lemma_none_selected(wanted, object_requirement(known));
        lemma_none_selected(found, delete_operation(desired));
        lemma_none_selected(found, stale_object_requirement(desired));
    }
}

/// An operation of the storage part, and the entry that it comes from: a
/// desired one that needs to be published, or a confirmed one that is not
/// desired.
proof fn lemma_storage_operation(desired: DesiredView, known: KnownView, i: int)
    requires
        well_keyed(desired),
        well_listed(known),
        0 <= i < storage_operations(desired, known).len(),
    ensures
        ({
            let operation = storage_operations(desired, known)[i];
            let k = operation_key(operation);
            match operation {
                OperationView::PutStorage(wanted) => desired.storage.dom().contains(k)
                    && desired.storage[k] == wanted && need_of(
                    known_object(known, k),
                    wanted.sha256,
                ) == Need::Publish,
                OperationView::DeleteStorage(_) => !desired.storage.dom().contains(k)
                    && known.storage.dom().contains(k) && known.storage[k].status
                    == OperationState::Confirmed,
                _ => false,
            }
        }),
{
    reveal(well_keyed);
    reveal(well_listed);
    reveal(storage_operations);
    reveal(storage_requirements);
    let wanted = ascending_entries(desired.storage);
    let found = ascending_entries(known.storage);
    let puts = wanted.filter_map(put_operation(known));
    lemma_listed_entries(desired.storage);
    lemma_listed_entries(known.storage);
    if i < puts.len() {
        let a = lemma_selected_from(wanted, put_operation(known), i);
        assert(storage_operations(desired, known)[i] == puts[i]);
        assert(desired.storage.dom().contains(wanted[a].0));
    } else {
        let b = lemma_selected_from(found, delete_operation(desired), i - puts.len());
        assert(storage_operations(desired, known)[i] == found.filter_map(
            delete_operation(desired),
        )[i - puts.len()]);
        assert(known.storage.dom().contains(found[b].0));
    }
}

/// The storage part names each key once.
proof fn lemma_storage_once(desired: DesiredView, known: KnownView, i: int, j: int)
    requires
        well_keyed(desired),
        well_listed(known),
        0 <= i < j < storage_operations(desired, known).len(),
    ensures
        operation_key(storage_operations(desired, known)[i]) != operation_key(
            storage_operations(desired, known)[j],
        ),
{
    reveal(well_keyed);
    reveal(well_listed);
    reveal(storage_operations);
    reveal(storage_requirements);
    let ops = storage_operations(desired, known);
    let wanted = ascending_entries(desired.storage);
    let found = ascending_entries(known.storage);
    let puts = wanted.filter_map(put_operation(known));
    let n = puts.len();
    lemma_storage_operation(desired, known, i);
    lemma_storage_operation(desired, known, j);
    lemma_listed_entries(desired.storage);
    lemma_listed_entries(known.storage);
    if j < n {
        let r = lemma_selected_in_order(wanted, put_operation(known), i, j);
        assert(ops[i] == puts[i] && ops[j] == puts[j]);
        assert(desired.storage.dom().contains(wanted[r.0].0));
        assert(desired.storage.dom().contains(wanted[r.1].0));
        lemma_text_lt_irreflexive(wanted[r.0].0);
    } else if i >= n {
        let deletes = found.filter_map(delete_operation(desired));
        let r = lemma_selected_in_order(found, delete_operation(desired), i - n, j - n);
        assert(ops[i] == deletes[i - n] && ops[j] == deletes[j - n]);
        lemma_text_lt_irreflexive(found[r.0].0);
    } else {
        let deletes = found.filter_map(delete_operation(desired));
        let a = lemma_selected_from(wanted, put_operation(known), i);
        let b = lemma_selected_from(found, delete_operation(desired), j - n);
        assert(ops[i] == puts[i] && ops[j] == deletes[j - n]);
    }
}

/// What the storage part does to a key where nothing is left to settle: a
/// desired entry is confirmed already or published, and any other known entry
/// is deleted.
proof fn lemma_storage_complete(desired: DesiredView, known: KnownView, k: Seq<char>)
    requires
        well_keyed(desired),
        well_listed(known),
        storage_requirements(desired, known).len() == 0,
    ensures
        desired.storage.dom().contains(k) ==> known_object(known, k) == Some(
            (OperationState::Confirmed, desired.storage[k].sha256),
        ) || exists|i: int|
            0 <= i < storage_operations(desired, known).len() && #[trigger] storage_operations(
                desired,
                known,
            )[i] == OperationView::PutStorage(desired.storage[k]),
        !desired.storage.dom().contains(k) && known.storage.dom().contains(k) ==> exists|i: int|
            0 <= i < storage_operations(desired, known).len() && #[trigger] storage_operations(
                desired,
                known,
            )[i] == OperationView::DeleteStorage(k),
{
    reveal(well_keyed);
    reveal(well_listed);
    reveal(storage_operations);
    reveal(storage_requirements);
    let ops = storage_operations(desired, known);
    let wanted = ascending_entries(desired.storage);
    let found = ascending_entries(known.storage);
    let puts = wanted.filter_map(put_operation(known));
    lemma_listed_entries(desired.storage);
    lemma_listed_entries(known.storage);
    if desired.storage.dom().contains(k) {
        let i = choose|i: int|
            0 <= i < wanted.len() && #[trigger] wanted[i] == (k, desired.storage[k]);
        if object_requirement(known)(wanted[i]) is Some {
            let p = lemma_selected(wanted, object_requirement(known), i);
        }
        if put_operation(known)(wanted[i]) is Some {
            let p = lemma_selected(wanted, put_operation(known), i);
            assert(ops[p] == OperationView::PutStorage(desired.storage[k]));
        }
    } else if known.storage.dom().contains(k) {
        let i = choose|i: int|
            0 <= i < found.len() && #[trigger] found[i] == (k, known.storage[k]);
        if stale_object_requirement(desired)(found[i]) is Some {
            let p = lemma_selected(found, stale_object_requirement(desired), i);
        }
        let p = lemma_selected(found, delete_operation(desired), i);
        assert(ops[puts.len() + p] == OperationView::DeleteStorage(k));
    }
}

/// An unsettled entry is named by a requirement of the storage part.
proof fn lemma_storage_unsettled(desired: DesiredView, known: KnownView, k: Seq<char>)
    requires
        well_keyed(desired),
        well_listed(known),
        known.storage.dom().contains(k),
        known.storage[k].status != OperationState::Confirmed,
    ensures
        storage_requirements(desired, known).contains(
            if known.storage[k].status == OperationState::Pending {
                RequirementView::StoragePending(k)
            } else {
                RequirementView::StorageUnknown(k)
            },
        ),
{
    reveal(well_keyed);
    reveal(well_listed);
    reveal(storage_operations);
    reveal(storage_requirements);
    let all = storage_requirements(desired, known);
    let wanted = ascending_entries(desired.storage);
    let found = ascending_entries(known.storage);
    lemma_listed_entries(desired.storage);
    lemma_listed_entries(known.storage);
    let first = wanted.filter_map(object_requirement(known));
    if desired.storage.dom().contains(k) {
        let i = choose|i: int|
            0 <= i < wanted.len() && #[trigger] wanted[i] == (k, desired.storage[k]);
        let p = lemma_selected(wanted, object_requirement(known), i);
        assert(all[p] == first[p]);
    } else {
        let i = choose|i: int|
            0 <= i < found.len() && #[trigger] found[i] == (k, known.storage[k]);
        let p = lemma_selected(found, stale_object_requirement(desired), i);
        assert(all[first.len() + p] == found.filter_map(stale_object_requirement(desired))[p]);
    }
}

proof fn lemma_repository_empty(desired: DesiredView, known: KnownView)
    requires
        well_keyed(desired),
        well_listed(known),
    ensures
        repository_operations(desired, known).len() == 0 && repository_requirements(
            desired,
            known,
        ).len() == 0 <==> files_settled(desired, known),
{
    reveal(well_keyed);
    reveal(well_listed);
    reveal(repository_operations);
    reveal(repository_requirements);
    let wanted = ascending_entries(desired.repository);
    let found = ascending_entries(known.repository);
    lemma_listed_entries(desired.repository);
    lemma_listed_entries(known.repository);
    if repository_operations(desired, known).len() == 0 && repository_requirements(
        desired,
        known,
    ).len() == 0 {
        assert forall|k: Seq<char>| #[trigger]
            desired.repository.dom().contains(k) implies known_file(known, k) == Some(
            (OperationState::Confirmed, desired.repository[k].sha256),
        ) by {
            let i = choose|i: int|
                0 <= i < wanted.len() && #[trigger] wanted[i] == (k, desired.repository[k]);
            if write_operation(known)(wanted[i]) is Some {
                let p = lemma_selected(wanted, write_operation(known), i);
            }
            if file_requirement(known)(wanted[i]) is Some {
                let p = lemma_selected(wanted, file_requirement(known), i);
            }
        }
        assert forall|k: Seq<char>| #[trigger]
            known.repository.dom().contains(k) implies desired.repository.dom().contains(k) by {
            let i = choose|i: int|
                0 <= i < found.len() && #[trigger] found[i] == (k, known.repository[k]);
            if remove_operation(desired)(found[i]) is Some {
                let p = lemma_selected(found, remove_operation(desired), i);
            }
            if stale_file_requirement(desired)(found[i]) is Some {
                let p = lemma_selected(found, stale_file_requirement(desired), i);
            }
        }
    }
    if files_settled(desired, known) {
        assert forall|i: int| 0 <= i < wanted.len() implies write_operation(known)(
            #[trigger] wanted[i],
        ) is None && file_requirement(known)(wanted[i]) is None by {
            assert(desired.repository.dom().contains(wanted[i].0));
        }
        assert forall|i: int| 0 <= i < found.len() implies remove_operation(desired)(
            #[trigger] found[i],
        ) is None && stale_file_requirement(desired)(found[i]) is None by {
            assert(known.repository.dom().contains(found[i].0));
        }
        lemma_none_selected(wanted, write_operation(known));
        lemma_none_selected(wanted, file_requirement(known));
        lemma_none_selected(found, remove_operation(desired));
        lemma_none_selected(found, stale_file_requirement(desired));
    }
}

/// An operation of the repository part, and the entry that it comes from: a
/// desired one that needs to be published, or a confirmed one that is not
/// desired.
proof fn lemma_repository_operation(desired: DesiredView, known: KnownView, i: int)
    requires
        well_keyed(desired),
        well_listed(known),
        0 <= i < repository_operations(desired, known).len(),
    ensures
        ({
            let operation = repository_operations(desired, known)[i];
            let k = operation_path(operation);
            match operation {
                OperationView::WriteRepository(wanted) => desired.repository.dom().contains(k)
                    && desired.repository[k] == wanted && need_of(
                    known_file(known, k),
                    wanted.sha256,
                ) == Need::Publish,
                OperationView::DeleteRepository(_) => !desired.repository.dom().contains(k)
                    && known.repository.dom().contains(k) && known.repository[k].status
                    == OperationState::Confirmed,
                _ => false,
            }
        }),
{
    reveal(well_keyed);
    reveal(well_listed);
    reveal(repository_operations);
    reveal(repository_requirements);
    let wanted = ascending_entries(desired.repository);
    let found = ascending_entries(known.repository);
    let puts = wanted.filter_map(write_operation(known));
    lemma_listed_entries(desired.repository);
    lemma_listed_entries(known.repository);
    if i < puts.len() {
        let a = lemma_selected_from(wanted, write_operation(known), i);
        assert(repository_operations(desired, known)[i] == puts[i]);
        assert(desired.repository.dom().contains(wanted[a].0));
    } else {
        let b = lemma_selected_from(found, remove_operation(desired), i - puts.len());
        assert(repository_operations(desired, known)[i] == found.filter_map(
            remove_operation(desired),
        )[i - puts.len()]);
        assert(known.repository.dom().contains(found[b].0));
    }
}

/// The repository part names each key once.
proof fn lemma_repository_once(desired: DesiredView, known: KnownView, i: int, j: int)
    requires
        well_keyed(desired),
        well_listed(known),
        0 <= i < j < repository_operations(desired, known).len(),
    ensures
        operation_path(repository_operations(desired, known)[i]) != operation_path(
            repository_operations(desired, known)[j],
        ),
{
    reveal(well_keyed);
    reveal(well_listed);
    reveal(repository_operations);
    reveal(repository_requirements);
    let ops = repository_operations(desired, known);
    let wanted = ascending_entries(desired.repository);
    let found = ascending_entries(known.repository);
    let puts = wanted.filter_map(write_operation(known));
    let n = puts.len();
    lemma_repository_operation(desired, known, i);
    lemma_repository_operation(desired, known, j);
    lemma_listed_entries(desired.repository);
    lemma_listed_entries(known.repository);
    if j < n {
        let r = lemma_selected_in_order(wanted, write_operation(known), i, j);
        assert(ops[i] == puts[i] && ops[j] == puts[j]);
        assert(desired.repository.dom().contains(wanted[r.0].0));
        assert(desired.repository.dom().contains(wanted[r.1].0));
        lemma_text_lt_irreflexive(wanted[r.0].0);
    } else if i >= n {
        let deletes = found.filter_map(remove_operation(desired));
        let r = lemma_selected_in_order(found, remove_operation(desired), i - n, j - n);
        assert(ops[i] == deletes[i - n] && ops[j] == deletes[j - n]);
        lemma_text_lt_irreflexive(found[r.0].0);
    } else {
        let deletes = found.filter_map(remove_operation(desired));
        let a = lemma_selected_from(wanted, write_operation(known), i);
        let b = lemma_selected_from(found, remove_operation(desired), j - n);
        assert(ops[i] == puts[i] && ops[j] == deletes[j - n]);
    }
}

/// What the repository part does to a key where nothing is left to settle: a
/// desired entry is confirmed already or published, and any other known entry
/// is deleted.
proof fn lemma_repository_complete(desired: DesiredView, known: KnownView, k: Seq<char>)
    requires
        well_keyed(desired),
        well_listed(known),
        repository_requirements(desired, known).len() == 0,
    ensures
        desired.repository.dom().contains(k) ==> known_file(known, k) == Some(
            (OperationState::Confirmed, desired.repository[k].sha256),
        ) || exists|i: int|
            0 <= i < repository_operations(desired, known).len() && #[trigger] repository_operations(
                desired,
                known,
            )[i] == OperationView::WriteRepository(desired.repository[k]),
        !desired.repository.dom().contains(k) && known.repository.dom().contains(k) ==> exists|i: int|
            0 <= i < repository_operations(desired, known).len() && #[trigger] repository_operations(
                desired,
                known,
            )[i] == OperationView::DeleteRepository(k),
{
    reveal(well_keyed);
    reveal(well_listed);
    reveal(repository_operations);
    reveal(repository_requirements);
    let ops = repository_operations(desired, known);
    let wanted = ascending_entries(desired.repository);
    let found = ascending_entries(known.repository);
    let puts = wanted.filter_map(write_operation(known));
    lemma_listed_entries(desired.repository);
    lemma_listed_entries(known.repository);
    if desired.repository.dom().contains(k) {
        let i = choose|i: int|
            0 <= i < wanted.len() && #[trigger] wanted[i] == (k, desired.repository[k]);
        if file_requirement(known)(wanted[i]) is Some {
            let p = lemma_selected(wanted, file_requirement(known), i);
        }
        if write_operation(known)(wanted[i]) is Some {
            let p = lemma_selected(wanted, write_operation(known), i);
            assert(ops[p] == OperationView::WriteRepository(desired.repository[k]));
        }
    } else if known.repository.dom().contains(k) {
        let i = choose|i: int|
            0 <= i < found.len() && #[trigger] found[i] == (k, known.repository[k]);
        if stale_file_requirement(desired)(found[i]) is Some {
            let p = lemma_selected(found, stale_file_requirement(desired), i);
        }
        let p = lemma_selected(found, remove_operation(desired), i);
        assert(ops[puts.len() + p] == OperationView::DeleteRepository(k));
    }
}

/// An unsettled entry is named by a requirement of the repository part.
proof fn lemma_repository_unsettled(desired: DesiredView, known: KnownView, k: Seq<char>)
    requires
        well_keyed(desired),
        well_listed(known),
        known.repository.dom().contains(k),
        known.repository[k].status != OperationState::Confirmed,
    ensures
        repository_requirements(desired, known).contains(
            if known.repository[k].status == OperationState::Pending {
                RequirementView::RepositoryPending(k)
            } else {
                RequirementView::RepositoryUnknown(k)
            },
        ),
{
    reveal(well_keyed);
    reveal(well_listed);
    reveal(repository_operations);
    reveal(repository_requirements);
    let all = repository_requirements(desired, known);
    let wanted = ascending_entries(desired.repository);
    let found = ascending_entries(known.repository);
    lemma_listed_entries(desired.repository);
    lemma_listed_entries(known.repository);
    let first = wanted.filter_map(file_requirement(known));
    if desired.repository.dom().contains(k) {
        let i = choose|i: int|
            0 <= i < wanted.len() && #[trigger] wanted[i] == (k, desired.repository[k]);
        let p = lemma_selected(wanted, file_requirement(known), i);
        assert(all[p] == first[p]);
    } else {
        let i = choose|i: int|
            0 <= i < found.len() && #[trigger] found[i] == (k, known.repository[k]);
        let p = lemma_selected(found, stale_file_requirement(desired), i);
        assert(all[first.len() + p] == found.filter_map(stale_file_requirement(desired))[p]);
    }
}

proof fn lemma_hosting_empty(desired: DesiredView, known: KnownView)
    ensures
        hosting_operations(desired, known).len() == 0 && hosting_requirements(
            desired,
            known,
        ).len() == 0 <==> known_hosting(known) == Some(
            (OperationState::Confirmed, desired.bundle_fingerprint),
        ),
{
}

proof fn lemma_plan_lengths(desired: DesiredView, known: KnownView, plan: IntegrationPlanView)
    requires
        plan_of(desired, known) == Ok::<IntegrationPlanView, PlannerError>(plan),
        desired.configuration_fingerprint == known.configuration_fingerprint,
    ensures
        plan.operations.len() == storage_operations(desired, known).len() + repository_operations(
            desired,
            known,
        ).len() + hosting_operations(desired, known).len(),
        plan.requirements.len() == storage_requirements(desired, known).len()
            + repository_requirements(desired, known).len() + hosting_requirements(
            desired,
            known,
        ).len(),
{
}

/// A plan is empty exactly when everything desired is confirmed as desired and
/// nothing else is known.
pub proof fn law_plan_is_empty_iff_settled(
    desired: DesiredView,
    known: KnownView,
    plan: IntegrationPlanView,
)
    requires
        well_keyed(desired),
        well_listed(known),
        plan_of(desired, known) == Ok::<IntegrationPlanView, PlannerError>(plan),
    ensures
        plan.operations.len() == 0 && plan.requirements.len() == 0
            <==> desired.configuration_fingerprint == known.configuration_fingerprint && settled(
            desired,
            known,
        ),
{
    if desired.configuration_fingerprint == known.configuration_fingerprint {
        lemma_plan_lengths(desired, known, plan);
        lemma_storage_empty(desired, known);
        lemma_repository_empty(desired, known);
        lemma_hosting_empty(desired, known);
    } else {
        assert(plan.requirements.len() == 1);
    }
}

/// A changed configuration is settled before anything else: it is the plan's
/// only requirement and there are no operations.
pub proof fn law_configuration_change_blocks(desired: DesiredView, known: KnownView)
    requires
        desired_error(desired) is None,
        desired.configuration_fingerprint != known.configuration_fingerprint,
    ensures
        plan_of(desired, known) == Ok::<IntegrationPlanView, PlannerError>(
            IntegrationPlanView {
                operations: Seq::empty(),
                requirements: seq![RequirementView::ConfigurationChanged],
            },
        ),
{
}

/// The family of an operation: storage, repository, hosting.
pub open spec fn family_rank(operation: OperationView) -> int {
    if is_storage_operation(operation) {
        0
    } else if is_repository_operation(operation) {
        1
    } else {
        2
    }
}

proof fn lemma_plan_rank(
    desired: DesiredView,
    known: KnownView,
    plan: IntegrationPlanView,
    i: int,
)
    requires
        well_keyed(desired),
        well_listed(known),
        plan_of(desired, known) == Ok::<IntegrationPlanView, PlannerError>(plan),
        0 <= i < plan.operations.len(),
    ensures
        ({
            let a = storage_operations(desired, known);
            let b = repository_operations(desired, known);
            if i < a.len() {
                plan.operations[i] == a[i] && family_rank(plan.operations[i]) == 0
            } else if i < a.len() + b.len() {
                plan.operations[i] == b[i - a.len()] && family_rank(plan.operations[i]) == 1
            } else {
                plan.operations[i] is PublishHosting && family_rank(plan.operations[i]) == 2
            }
        }),
{
    let a = storage_operations(desired, known);
    let b = repository_operations(desired, known);
    if i < a.len() {
        lemma_storage_operation(desired, known, i);
        assert(plan.operations[i] == a[i]);
    } else if i < a.len() + b.len() {
        lemma_repository_operation(desired, known, i - a.len());
        assert(plan.operations[i] == b[i - a.len()]);
    } else {
        assert(plan.operations[i] == hosting_operations(desired, known)[i - a.len() - b.len()]);
    }
}

/// Storage comes before the repository, and the repository before hosting.
pub proof fn law_plan_is_ordered(
    desired: DesiredView,
    known: KnownView,
    plan: IntegrationPlanView,
    i: int,
    j: int,
)
    requires
        well_keyed(desired),
        well_listed(known),
        plan_of(desired, known) == Ok::<IntegrationPlanView, PlannerError>(plan),
        0 <= i < j < plan.operations.len(),
    ensures
        family_rank(plan.operations[i]) <= family_rank(plan.operations[j]),
{
    lemma_plan_rank(desired, known, plan, i);
    lemma_plan_rank(desired, known, plan, j);
}

/// An object whose last operation is unsettled is named by a requirement and
/// by no operation.
pub proof fn law_unsettled_object_blocks(
    desired: DesiredView,
    known: KnownView,
    plan: IntegrationPlanView,
    key: Seq<char>,
)
    requires
        well_keyed(desired),
        well_listed(known),
        plan_of(desired, known) == Ok::<IntegrationPlanView, PlannerError>(plan),
        desired.configuration_fingerprint == known.configuration_fingerprint,
        known.storage.dom().contains(key),
        known.storage[key].status != OperationState::Confirmed,
    ensures
        plan.requirements.contains(
            if known.storage[key].status == OperationState::Pending {
                RequirementView::StoragePending(key)
            } else {
                RequirementView::StorageUnknown(key)
            },
        ),
        forall|i: int|
            0 <= i < plan.operations.len() && is_storage_operation(#[trigger] plan.operations[i])
                ==> operation_key(plan.operations[i]) != key,
{
    lemma_storage_unsettled(desired, known, key);
    let part = storage_requirements(desired, known);
    let p = choose|p: int|
        0 <= p < part.len() && part[p] == if known.storage[key].status == OperationState::Pending {
            RequirementView::StoragePending(key)
        } else {
            RequirementView::StorageUnknown(key)
        };
    assert(plan.requirements[p] == part[p]);
    assert forall|i: int|
        0 <= i < plan.operations.len() && is_storage_operation(
            #[trigger] plan.operations[i],
        ) implies operation_key(plan.operations[i]) != key by {
        lemma_plan_rank(desired, known, plan, i);
        if i < storage_operations(desired, known).len() {
            lemma_storage_operation(desired, known, i);
        }
    }
}

/// A file whose last operation is unsettled is named by a requirement and by no
/// operation.
pub proof fn law_unsettled_file_blocks(
    desired: DesiredView,
    known: KnownView,
    plan: IntegrationPlanView,
    path: Seq<char>,
)
    requires
        well_keyed(desired),
        well_listed(known),
        plan_of(desired, known) == Ok::<IntegrationPlanView, PlannerError>(plan),
        desired.configuration_fingerprint == known.configuration_fingerprint,
        known.repository.dom().contains(path),
        known.repository[path].status != OperationState::Confirmed,
    ensures
        plan.requirements.contains(
            if known.repository[path].status == OperationState::Pending {
                RequirementView::RepositoryPending(path)
            } else {
                RequirementView::RepositoryUnknown(path)
            },
        ),
        forall|i: int|
            0 <= i < plan.operations.len() && is_repository_operation(#[trigger] plan.operations[i])
                ==> operation_path(plan.operations[i]) != path,
{
    lemma_repository_unsettled(desired, known, path);
    let before = storage_requirements(desired, known).len();
    let part = repository_requirements(desired, known);
    let p = choose|p: int|
        0 <= p < part.len() && part[p] == if known.repository[path].status
            == OperationState::Pending {
            RequirementView::RepositoryPending(path)
        } else {
            RequirementView::RepositoryUnknown(path)
        };
    assert(plan.requirements[before + p] == part[p]);
    assert forall|i: int|
        0 <= i < plan.operations.len() && is_repository_operation(
            #[trigger] plan.operations[i],
        ) implies operation_path(plan.operations[i]) != path by {
        lemma_plan_rank(desired, known, plan, i);
        let a = storage_operations(desired, known);
        if a.len() <= i < a.len() + repository_operations(desired, known).len() {
            lemma_repository_operation(desired, known, i - a.len());
        }
    }
}

/// The storage operations of a plan.
proof fn lemma_storage_taken(
    a: Seq<OperationView>,
    b: Seq<OperationView>,
    c: Seq<OperationView>,
)
    requires
        forall|i: int| 0 <= i < a.len() ==> is_storage_operation(#[trigger] a[i]),
        forall|i: int| 0 <= i < b.len() ==> !is_storage_operation(#[trigger] b[i]),
        forall|i: int| 0 <= i < c.len() ==> !is_storage_operation(#[trigger] c[i]),
    ensures
        (a + b + c).filter(|o: OperationView| is_storage_operation(o)) == a,
{
    let wanted = |o: OperationView| is_storage_operation(o);
    lemma_kept_sum(a, b, c, wanted);
    lemma_all_kept(a, wanted);
    lemma_none_kept(b, wanted);
    lemma_none_kept(c, wanted);
    let none = Seq::<OperationView>::empty();
    assert(a + none + none =~= a);
}

/// The repository operations of a plan.
proof fn lemma_repository_taken(
    a: Seq<OperationView>,
    b: Seq<OperationView>,
    c: Seq<OperationView>,
)
    requires
        forall|i: int| 0 <= i < a.len() ==> !is_repository_operation(#[trigger] a[i]),
        forall|i: int| 0 <= i < b.len() ==> is_repository_operation(#[trigger] b[i]),
        forall|i: int| 0 <= i < c.len() ==> !is_repository_operation(#[trigger] c[i]),
    ensures
        (a + b + c).filter(|o: OperationView| is_repository_operation(o)) == b,
{
    let wanted = |o: OperationView| is_repository_operation(o);
    lemma_kept_sum(a, b, c, wanted);
    lemma_none_kept(a, wanted);
    lemma_all_kept(b, wanted);
    lemma_none_kept(c, wanted);
    let none = Seq::<OperationView>::empty();
    assert(none + b + none =~= b);
}

/// The hosting operations of a plan.
proof fn lemma_hosting_taken(
    a: Seq<OperationView>,
    b: Seq<OperationView>,
    c: Seq<OperationView>,
)
    requires
        forall|i: int| 0 <= i < a.len() ==> !(#[trigger] a[i] is PublishHosting),
        forall|i: int| 0 <= i < b.len() ==> !(#[trigger] b[i] is PublishHosting),
        c.len() <= 1,
        c.len() == 1 ==> c[0] is PublishHosting,
    ensures
        hosting_fingerprints(a + b + c) == if c.len() == 1 {
            seq![c[0]->PublishHosting_0]
        } else {
            Seq::empty()
        },
{
    let f = hosting_fingerprint();
    lemma_selected_sum(a + b, c, f);
    lemma_selected_sum(a, b, f);
    lemma_none_selected(a, f);
    lemma_none_selected(b, f);
    if c.len() == 1 {
        Seq::lemma_filter_map_singleton(c[0], f);
        assert(c =~= seq![c[0]]);
    }
    assert((a + b + c).filter_map(f) =~= c.filter_map(f));
}

proof fn lemma_kinds(desired: DesiredView, known: KnownView)
    requires
        well_keyed(desired),
        well_listed(known),
    ensures
        forall|i: int|
            0 <= i < storage_operations(desired, known).len() ==> is_storage_operation(
                #[trigger] storage_operations(desired, known)[i],
            ),
        forall|i: int|
            0 <= i < repository_operations(desired, known).len() ==> is_repository_operation(
                #[trigger] repository_operations(desired, known)[i],
            ),
{
    assert forall|i: int|
        0 <= i < storage_operations(desired, known).len() implies is_storage_operation(
        #[trigger] storage_operations(desired, known)[i],
    ) by {
        lemma_storage_operation(desired, known, i);
    }
    assert forall|i: int|
        0 <= i < repository_operations(desired, known).len() implies is_repository_operation(
        #[trigger] repository_operations(desired, known)[i],
    ) by {
        lemma_repository_operation(desired, known, i);
    }
}

proof fn lemma_plan_sum(desired: DesiredView, known: KnownView, plan: IntegrationPlanView)
    requires
        plan_of(desired, known) == Ok::<IntegrationPlanView, PlannerError>(plan),
        desired.configuration_fingerprint == known.configuration_fingerprint,
    ensures
        plan.operations == storage_operations(desired, known) + repository_operations(
            desired,
            known,
        ) + hosting_operations(desired, known),
        plan.requirements == storage_requirements(desired, known) + repository_requirements(
            desired,
            known,
        ) + hosting_requirements(desired, known),
{
}


/// The storage executor takes the storage part out of a plan.
proof fn lemma_plan_storage(desired: DesiredView, known: KnownView, plan: IntegrationPlanView)
    requires
        well_keyed(desired),
        well_listed(known),
        plan_of(desired, known) == Ok::<IntegrationPlanView, PlannerError>(plan),
        desired.configuration_fingerprint == known.configuration_fingerprint,
    ensures
        plan.operations.filter(|o: OperationView| is_storage_operation(o)) == storage_operations(
            desired,
            known,
        ),
{
    lemma_plan_sum(desired, known, plan);
    lemma_kinds(desired, known);
    lemma_storage_taken(
        storage_operations(desired, known),
        repository_operations(desired, known),
        hosting_operations(desired, known),
    );
}

/// The repository executor takes the repository part out of a plan.
proof fn lemma_plan_repository(desired: DesiredView, known: KnownView, plan: IntegrationPlanView)
    requires
        well_keyed(desired),
        well_listed(known),
        plan_of(desired, known) == Ok::<IntegrationPlanView, PlannerError>(plan),
        desired.configuration_fingerprint == known.configuration_fingerprint,
    ensures
        plan.operations.filter(|o: OperationView| is_repository_operation(o))
            == repository_operations(desired, known),
{
    lemma_plan_sum(desired, known, plan);
    lemma_kinds(desired, known);
    lemma_repository_taken(
        storage_operations(desired, known),
        repository_operations(desired, known),
        hosting_operations(desired, known),
    );
}

/// The hosting executor takes the hosting part out of a plan.
proof fn lemma_plan_hosting(desired: DesiredView, known: KnownView, plan: IntegrationPlanView)
    requires
        well_keyed(desired),
        well_listed(known),
        plan_of(desired, known) == Ok::<IntegrationPlanView, PlannerError>(plan),
        desired.configuration_fingerprint == known.configuration_fingerprint,
    ensures
        hosting_fingerprints(plan.operations) == if hosting_operations(desired, known).len() == 1 {
            seq![desired.bundle_fingerprint]
        } else {
            Seq::empty()
        },
{
    lemma_plan_sum(desired, known, plan);
    lemma_kinds(desired, known);
    lemma_hosting_taken(
        storage_operations(desired, known),
        repository_operations(desired, known),
        hosting_operations(desired, known),
    );
}

/// The storage part names each key once, and the repository part each path.
proof fn lemma_parts_distinct(desired: DesiredView, known: KnownView)
    requires
        well_keyed(desired),
        well_listed(known),
    ensures
        keys_distinct(storage_operations(desired, known)),
        paths_distinct(repository_operations(desired, known)),
{
    let a = storage_operations(desired, known);
    let b = repository_operations(desired, known);
    assert forall|i: int, j: int| 0 <= i < j < a.len() implies operation_key(#[trigger] a[i])
        != operation_key(#[trigger] a[j]) by {
        lemma_storage_once(desired, known, i, j);
    }
    assert forall|i: int, j: int| 0 <= i < j < b.len() implies #[trigger] operation_path(b[i])
        != #[trigger] operation_path(b[j]) by {
        lemma_repository_once(desired, known, i, j);
    }
}

/// A plan names each object and each file once, and publishes at most once.
pub proof fn law_plan_names_each_thing_once(
    desired: DesiredView,
    known: KnownView,
    plan: IntegrationPlanView,
)
    requires
        well_keyed(desired),
        well_listed(known),
        plan_of(desired, known) == Ok::<IntegrationPlanView, PlannerError>(plan),
        desired.configuration_fingerprint == known.configuration_fingerprint,
    ensures
        keys_distinct(plan.operations.filter(|o: OperationView| is_storage_operation(o))),
        paths_distinct(plan.operations.filter(|o: OperationView| is_repository_operation(o))),
        hosting_fingerprints(plan.operations).len() <= 1,
{
    lemma_plan_storage(desired, known, plan);
    lemma_plan_repository(desired, known, plan);
    lemma_plan_hosting(desired, known, plan);
    lemma_parts_distinct(desired, known);
}

/// Whether storage operations name each key once.
pub open spec fn keys_distinct(operations: Seq<OperationView>) -> bool {
    forall|i: int, j: int|
        0 <= i < j < operations.len() ==> operation_key(#[trigger] operations[i]) != operation_key(
            #[trigger] operations[j],
        )
}

proof fn lemma_last_requirement(before: Seq<RequirementView>, last: Seq<RequirementView>)
    requires
        last.len() == 1,
    ensures
        (before + last).contains(last[0]),
{
    assert((before + last)[before.len() as int] == last[0]);
}

/// Hosting whose last publication is unsettled is named by a requirement and
/// published by no operation.
pub proof fn law_unsettled_hosting_blocks(
    desired: DesiredView,
    known: KnownView,
    plan: IntegrationPlanView,
)
    requires
        well_keyed(desired),
        well_listed(known),
        plan_of(desired, known) == Ok::<IntegrationPlanView, PlannerError>(plan),
        desired.configuration_fingerprint == known.configuration_fingerprint,
        known.hosting is Some,
        known.hosting->0.status != OperationState::Confirmed,
    ensures
        plan.requirements.contains(
            if known.hosting->0.status == OperationState::Pending {
                RequirementView::HostingPending(known.hosting->0.bundle_fingerprint)
            } else {
                RequirementView::HostingUnknown(known.hosting->0.bundle_fingerprint)
            },
        ),
        hosting_fingerprints(plan.operations).len() == 0,
{
    lemma_plan_hosting(desired, known, plan);
    lemma_plan_sum(desired, known, plan);
    lemma_last_requirement(
        storage_requirements(desired, known) + repository_requirements(desired, known),
        hosting_requirements(desired, known),
    );
}

// ---------------------------------------------------------------------------
// Plans and executors
// ---------------------------------------------------------------------------
/// Publishing objects changes their entries alone.
proof fn lemma_published_elsewhere(
    ledger: LedgerView,
    operations: Seq<OperationView>,
    n: int,
    key: Seq<char>,
)
    requires
        0 <= n <= operations.len(),
        forall|i: int| 0 <= i < n ==> operation_key(#[trigger] operations[i]) != key,
    ensures
        r2_entry(objects_published(ledger, operations, n), key) == r2_entry(ledger, key),
    decreases n,
{
    if n > 0 {
        lemma_published_elsewhere(ledger, operations, n - 1, key);
        assert(operation_key(operations[n - 1]) != key);
    }
}

/// Publishing objects changes the object inventory alone, which stays listed.
proof fn lemma_published_frame(ledger: LedgerView, operations: Seq<OperationView>, n: int)
    requires
        0 <= n <= operations.len(),
    ensures
        ({
            let after = objects_published(ledger, operations, n);
            &&& after.configuration_fingerprint == ledger.configuration_fingerprint
            &&& after.local_generation == ledger.local_generation
            &&& after.github_inventory == ledger.github_inventory
            &&& after.vercel == ledger.vercel
            &&& is_listed(ledger.r2_inventory) ==> is_listed(after.r2_inventory)
        }),
    decreases n,
{
    if n > 0 {
        lemma_published_frame(ledger, operations, n - 1);
        let before = objects_published(ledger, operations, n - 1);
        let after = objects_published(ledger, operations, n);
        if is_listed(before.r2_inventory) {
            let key = operation_key(operations[n - 1]);
            lemma_listed(before.r2_inventory, key, after.r2_inventory[key]);
        }
    }
}

/// A published object is recorded as such.
proof fn lemma_published_there(
    ledger: LedgerView,
    operations: Seq<OperationView>,
    n: int,
    j: int,
)
    requires
        0 <= j < n <= operations.len(),
        is_storage_operation(operations[j]),
        keys_distinct(operations),
    ensures
        r2_entry(objects_published(ledger, operations, n), operation_key(operations[j]))
            == match operations[j] {
            OperationView::PutStorage(desired) => Some(
                r2_entry_of(intended_object(desired), OperationState::Confirmed),
            ),
            _ => None,
        },
    decreases n,
{
    if j < n - 1 {
        lemma_published_there(ledger, operations, n - 1, j);
        assert(operation_key(operations[j]) != operation_key(operations[n - 1]));
    }
}

/// What an operation of a plan finds in the ledger that the plan was made of:
/// nothing, or a confirmed entry.
proof fn lemma_operation_fits_ledger(desired: DesiredView, ledger: LedgerView, i: int)
    requires
        well_keyed(desired),
        well_listed(known_of(ledger)),
        0 <= i < storage_operations(desired, known_of(ledger)).len(),
    ensures
        ({
            let operation = storage_operations(desired, known_of(ledger))[i];
            let entry = r2_entry(ledger, operation_key(operation));
            &&& is_storage_operation(operation)
            &&& entry is Some ==> entry->0.status == OperationState::Confirmed
            &&& operation is DeleteStorage ==> entry is Some
        }),
{
    lemma_storage_operation(desired, known_of(ledger), i);
}

/// Whether a run has not found its plan inconsistent with the ledger.
pub open spec fn is_consistent(run: StorageRun) -> bool {
    match run.stage {
        StorageStageView::Done(Some(StorageErrorView::InconsistentPlan(_))) => false,
        StorageStageView::PersistOutcome(Some(StorageErrorView::InconsistentPlan(_))) => false,
        _ => true,
    }
}

proof fn lemma_entered_consistent(run: StorageRun)
    requires
        0 <= run.index < run.operations.len() ==> {
            let operation = run.operations[run.index];
            let entry = r2_entry(run.ledger, operation_key(operation));
            &&& is_storage_operation(operation)
            &&& entry is Some ==> entry->0.status == OperationState::Confirmed
            &&& operation is DeleteStorage ==> entry is Some
        },
        0 <= run.index,
    ensures
        is_consistent(storage_entered(run)),
{
}

proof fn lemma_step_consistent(run: StorageRun, event: StorageEventView)
    requires
        is_consistent(run),
        run.stage == StorageStageView::PersistOutcome(None) ==> is_consistent(
            storage_entered(StorageRun { index: run.index + 1, ..run }),
        ),
    ensures
        is_consistent(storage_step(run, event)),
{
}

/// The storage executor never finds a plan that was made of its ledger
/// inconsistent with it, whatever happens.
pub proof fn law_storage_accepts_its_plan(
    desired: DesiredView,
    ledger: LedgerView,
    plan: IntegrationPlanView,
    events: Seq<StorageEventView>,
)
    requires
        well_keyed(desired),
        well_listed(known_of(ledger)),
        plan_of(desired, known_of(ledger)) == Ok::<IntegrationPlanView, PlannerError>(plan),
        desired.configuration_fingerprint == ledger.configuration_fingerprint,
    ensures
        is_consistent(storage_steps(storage_started(plan.operations, ledger), events)),
    decreases events.len(),
{
    let known = known_of(ledger);
    let ops = storage_operations(desired, known);
    lemma_plan_storage(desired, known, plan);
    if events.len() == 0 {
        let first = StorageRun {
            operations: ops,
            index: 0,
            ledger,
            previous: None,
            stage: StorageStageView::Done(None),
        };
        if ops.len() > 0 {
            lemma_operation_fits_ledger(desired, ledger, 0);
        }
        lemma_entered_consistent(first);
    } else {
        law_storage_accepts_its_plan(desired, ledger, plan, events.drop_last());
        lemma_storage_steps_in_step(plan.operations, ledger, events.drop_last());
        let run = storage_steps(storage_started(plan.operations, ledger), events.drop_last());
        if run.stage == StorageStageView::PersistOutcome(None) {
            let n = run.index + 1;
            if n < ops.len() {
                lemma_parts_distinct(desired, known);
                lemma_operation_fits_ledger(desired, ledger, n);
                lemma_published_elsewhere(ledger, ops, n, operation_key(ops[n]));
            }
            lemma_entered_consistent(StorageRun { index: n, ..run });
        }
        lemma_step_consistent(run, events.last());
    }
}

proof fn lemma_no_guard(batch: Seq<OperationView>, ledger: LedgerView, n: int)
    requires
        0 <= n <= batch.len(),
        forall|i: int| 0 <= i < batch.len() ==> #[trigger] guard_text(batch, ledger, i) is None,
    ensures
        guards_text(batch, ledger, n) is None,
    decreases batch.len() - n,
{
    if n < batch.len() {
        lemma_no_guard(batch, ledger, n + 1);
    }
}

/// The repository executor never finds a plan that was made of its ledger's
/// files inconsistent with it.
pub proof fn law_repository_accepts_its_plan(
    desired: DesiredView,
    planned: LedgerView,
    ledger: LedgerView,
    plan: IntegrationPlanView,
)
    requires
        well_keyed(desired),
        well_listed(known_of(planned)),
        plan_of(desired, known_of(planned)) == Ok::<IntegrationPlanView, PlannerError>(plan),
        desired.configuration_fingerprint == planned.configuration_fingerprint,
        ledger.github_inventory == planned.github_inventory,
    ensures
        guards_text(
            plan.operations.filter(|o: OperationView| is_repository_operation(o)),
            ledger,
            0,
        ) is None,
{
    let known = known_of(planned);
    let batch = repository_operations(desired, known);
    lemma_plan_repository(desired, known, plan);
    lemma_parts_distinct(desired, known);
    assert forall|i: int| 0 <= i < batch.len() implies #[trigger] guard_text(
        batch,
        ledger,
        i,
    ) is None by {
        lemma_repository_operation(desired, known, i);
    }
    lemma_no_guard(batch, ledger, 0);
}

proof fn lemma_storage_converges(
    desired: DesiredView,
    known: KnownView,
    ledger: LedgerView,
    k: Seq<char>,
)
    requires
        well_keyed(desired),
        well_listed(known),
        known.storage == ledger.r2_inventory,
        storage_requirements(desired, known).len() == 0,
        keys_distinct(storage_operations(desired, known)),
    ensures
        ({
            let ops = storage_operations(desired, known);
            let entry = r2_entry(objects_published(ledger, ops, ops.len() as int), k);
            if desired.storage.dom().contains(k) {
                entry is Some && entry->0.status == OperationState::Confirmed && entry->0.sha256
                    == desired.storage[k].sha256
            } else {
                entry is None
            }
        }),
{
    let ops = storage_operations(desired, known);
    let n = ops.len() as int;
    reveal(well_keyed);
    lemma_storage_complete(desired, known, k);
    if exists|i: int| 0 <= i < n && operation_key(#[trigger] ops[i]) == k {
        let i = choose|i: int| 0 <= i < n && operation_key(#[trigger] ops[i]) == k;
        lemma_storage_operation(desired, known, i);
        lemma_published_there(ledger, ops, n, i);
    } else {
        if desired.storage.dom().contains(k) && exists|i: int|
            0 <= i < n && #[trigger] ops[i] == OperationView::PutStorage(desired.storage[k]) {
            let i = choose|i: int|
                0 <= i < n && #[trigger] ops[i] == OperationView::PutStorage(desired.storage[k]);
            assert(operation_key(ops[i]) == k);
        }
        if !desired.storage.dom().contains(k) && known.storage.dom().contains(k) {
            let i = choose|i: int|
                0 <= i < n && #[trigger] ops[i] == OperationView::DeleteStorage(k);
            assert(operation_key(ops[i]) == k);
        }
        lemma_published_elsewhere(ledger, ops, n, k);
    }
}

proof fn lemma_repository_converges(
    desired: DesiredView,
    known: KnownView,
    start: LedgerView,
    end: LedgerView,
    revision: Seq<char>,
    k: Seq<char>,
)
    requires
        well_keyed(desired),
        well_listed(known),
        known.repository == start.github_inventory,
        repository_requirements(desired, known).len() == 0,
        ({
            let ops = repository_operations(desired, known);
            &&& !in_batch(ops, 0, k) ==> same_file(end, start, k)
            &&& forall|j: int| 0 <= j < ops.len() ==> is_published(end, #[trigger] ops[j], revision)
        }),
    ensures
        ({
            let entry = github_entry(end, k);
            if desired.repository.dom().contains(k) {
                entry is Some && entry->0.status == OperationState::Confirmed && entry->0.sha256
                    == desired.repository[k].sha256
            } else {
                entry is None
            }
        }),
{
    let ops = repository_operations(desired, known);
    reveal(well_keyed);
    lemma_repository_complete(desired, known, k);
    if in_batch(ops, 0, k) {
        let i = choose|i: int| 0 <= i < ops.len() && #[trigger] operation_path(ops[i]) == k;
        lemma_repository_operation(desired, known, i);
        assert(is_published(end, ops[i], revision));
    } else {
        if desired.repository.dom().contains(k) && exists|i: int|
            0 <= i < ops.len() && #[trigger] ops[i] == OperationView::WriteRepository(
                desired.repository[k],
            ) {
            let i = choose|i: int|
                0 <= i < ops.len() && #[trigger] ops[i] == OperationView::WriteRepository(
                    desired.repository[k],
                );
            assert(operation_path(ops[i]) == k);
        }
        if !desired.repository.dom().contains(k) && known.repository.dom().contains(k) {
            let i = choose|i: int|
                0 <= i < ops.len() && #[trigger] ops[i] == OperationView::DeleteRepository(k);
            assert(operation_path(ops[i]) == k);
        }
    }
}

/// The storage phase settles the objects and changes nothing else.
proof fn lemma_storage_phase(
    desired: DesiredView,
    known: KnownView,
    plan: IntegrationPlanView,
    ledger: LedgerView,
    events: Seq<StorageEventView>,
)
    requires
        well_keyed(desired),
        well_listed(known),
        known.storage == ledger.r2_inventory,
        plan_of(desired, known) == Ok::<IntegrationPlanView, PlannerError>(plan),
        desired.configuration_fingerprint == known.configuration_fingerprint,
        storage_requirements(desired, known).len() == 0,
        storage_steps(storage_started(plan.operations, ledger), events).stage
            == StorageStageView::Done(None),
    ensures
        ({
            let after = storage_steps(storage_started(plan.operations, ledger), events).ledger;
            &&& objects_settled(desired, known_of(after))
            &&& is_listed(after.r2_inventory)
            &&& after.github_inventory == ledger.github_inventory
            &&& after.vercel == ledger.vercel
            &&& after.configuration_fingerprint == ledger.configuration_fingerprint
        }),
{
    let ops = storage_operations(desired, known);
    let n = ops.len() as int;
    let after = storage_steps(storage_started(plan.operations, ledger), events).ledger;
    lemma_plan_storage(desired, known, plan);
    lemma_parts_distinct(desired, known);
    law_successful_storage_run_publishes_all(plan.operations, ledger, events);
    lemma_published_frame(ledger, ops, n);
    lemma_known_listed(known);
    assert forall|k: Seq<char>| #[trigger] desired.storage.dom().contains(k) implies known_object(
        known_of(after),
        k,
    ) == Some((OperationState::Confirmed, desired.storage[k].sha256)) by {
        lemma_storage_converges(desired, known, ledger, k);
    }
    assert forall|k: Seq<char>| #[trigger]
        known_of(after).storage.dom().contains(k) implies desired.storage.dom().contains(k) by {
        lemma_storage_converges(desired, known, ledger, k);
    }
}

/// The repository phase settles the files and changes nothing else.
proof fn lemma_repository_phase(
    desired: DesiredView,
    known: KnownView,
    plan: IntegrationPlanView,
    files: Seq<(Seq<char>, Seq<u8>)>,
    ledger: LedgerView,
    events: Seq<RepositoryEventView>,
)
    requires
        well_keyed(desired),
        well_listed(known),
        known.repository == ledger.github_inventory,
        plan_of(desired, known) == Ok::<IntegrationPlanView, PlannerError>(plan),
        desired.configuration_fingerprint == known.configuration_fingerprint,
        repository_requirements(desired, known).len() == 0,
        repository_steps(repository_started(plan.operations, files, ledger), events).stage
            == RepositoryStageView::Done(None),
    ensures
        ({
            let after = repository_steps(
                repository_started(plan.operations, files, ledger),
                events,
            ).ledger;
            &&& files_settled(desired, known_of(after))
            &&& is_listed(after.github_inventory)
            &&& after.r2_inventory == ledger.r2_inventory
            &&& after.vercel == ledger.vercel
            &&& after.configuration_fingerprint == ledger.configuration_fingerprint
        }),
{
    let ops = repository_operations(desired, known);
    let end = repository_steps(repository_started(plan.operations, files, ledger), events);
    let after = end.ledger;
    lemma_plan_repository(desired, known, plan);
    law_successful_repository_run_publishes_all(plan.operations, files, ledger, events);
    lemma_known_listed(known);
    let revision = if end.revision is Some {
        end.revision->0
    } else {
        Seq::empty()
    };
    assert forall|k: Seq<char>| !in_batch(ops, 0, k) implies #[trigger] same_file(
        after,
        ledger,
        k,
    ) by {}
    assert forall|k: Seq<char>| #[trigger] desired.repository.dom().contains(k) implies known_file(
        known_of(after),
        k,
    ) == Some((OperationState::Confirmed, desired.repository[k].sha256)) by {
        assert(!in_batch(ops, 0, k) ==> same_file(after, ledger, k));
        lemma_repository_converges(desired, known, ledger, after, revision, k);
    }
    assert forall|k: Seq<char>| #[trigger]
        known_of(after).repository.dom().contains(k) implies desired.repository.dom().contains(
        k,
    ) by {
        assert(!in_batch(ops, 0, k) ==> same_file(after, ledger, k));
        lemma_repository_converges(desired, known, ledger, after, revision, k);
    }
}

/// The hosting phase settles hosting and changes nothing else.
proof fn lemma_hosting_phase(
    desired: DesiredView,
    known: KnownView,
    plan: IntegrationPlanView,
    bundle: BundleView,
    ledger: LedgerView,
    events: Seq<HostingEventView>,
)
    requires
        well_keyed(desired),
        well_listed(known),
        known.hosting == ledger.vercel,
        plan_of(desired, known) == Ok::<IntegrationPlanView, PlannerError>(plan),
        desired.configuration_fingerprint == known.configuration_fingerprint,
        hosting_requirements(desired, known).len() == 0,
        hosting_steps(hosting_started(plan.operations, desired, bundle, ledger), events).stage
            == HostingStageView::Done(None),
    ensures
        ({
            let after = hosting_steps(
                hosting_started(plan.operations, desired, bundle, ledger),
                events,
            ).ledger;
            &&& known_hosting(known_of(after)) == Some(
                (OperationState::Confirmed, desired.bundle_fingerprint),
            )
            &&& after.r2_inventory == ledger.r2_inventory
            &&& after.github_inventory == ledger.github_inventory
            &&& after.configuration_fingerprint == ledger.configuration_fingerprint
        }),
{
    lemma_plan_hosting(desired, known, plan);
    law_successful_hosting_run_publishes(plan.operations, desired, bundle, ledger, events);
    lemma_hosting_empty(desired, known);
    let first = hosting_started(plan.operations, desired, bundle, ledger);
    if hosting_operations(desired, known).len() == 1 {
        assert(first.fingerprint == desired.bundle_fingerprint);
    } else {
        law_no_hosting_operation_changes_nothing(plan.operations, desired, bundle, ledger);
        lemma_ended_hosting(first, events);
    }
}

proof fn lemma_ended_hosting(run: HostingRun, events: Seq<HostingEventView>)
    requires
        run.stage is Done,
    ensures
        hosting_steps(run, events) == run,
    decreases events.len(),
{
    if events.len() > 0 {
        lemma_ended_hosting(run, events.drop_last());
    }
}

proof fn lemma_known_listed(known: KnownView)
    ensures
        well_listed(known) <==> is_listed(known.storage) && is_listed(known.repository),
{
    reveal(well_listed);
}

/// Once a plan without requirements is carried out phase by phase, each phase
/// ending without an error whatever happened on the way, everything desired is
/// confirmed and nothing is left to plan.
pub proof fn law_publication_converges(
    desired: DesiredView,
    ledger: LedgerView,
    plan: IntegrationPlanView,
    bundle: BundleView,
    storage_events: Seq<StorageEventView>,
    repository_events: Seq<RepositoryEventView>,
    hosting_events: Seq<HostingEventView>,
)
    requires
        well_keyed(desired),
        well_listed(known_of(ledger)),
        plan_of(desired, known_of(ledger)) == Ok::<IntegrationPlanView, PlannerError>(plan),
        plan.requirements.len() == 0,
        ({
            let adopted = coordination_started(plan, desired, ledger).ledger;
            let stored = storage_steps(storage_started(plan.operations, adopted), storage_events);
            let committed = repository_steps(
                repository_started(plan.operations, bundle.files, stored.ledger),
                repository_events,
            );
            let hosted = hosting_steps(
                hosting_started(plan.operations, desired, bundle, committed.ledger),
                hosting_events,
            );
            &&& stored.stage == StorageStageView::Done(None)
            &&& committed.stage == RepositoryStageView::Done(None)
            &&& hosted.stage == HostingStageView::Done(None)
        }),
    ensures
        ({
            let adopted = coordination_started(plan, desired, ledger).ledger;
            let stored = storage_steps(storage_started(plan.operations, adopted), storage_events);
            let committed = repository_steps(
                repository_started(plan.operations, bundle.files, stored.ledger),
                repository_events,
            );
            let hosted = hosting_steps(
                hosting_started(plan.operations, desired, bundle, committed.ledger),
                hosting_events,
            );
            &&& settled(desired, known_of(hosted.ledger))
            &&& plan_of(desired, known_of(hosted.ledger)) == Ok::<IntegrationPlanView, PlannerError>(
                IntegrationPlanView { operations: Seq::empty(), requirements: Seq::empty() },
            )
        }),
{
    let known = known_of(ledger);
    let adopted = coordination_started(plan, desired, ledger).ledger;
    lemma_adopted(plan, desired, ledger);
    lemma_planned(desired, known, plan);
    lemma_storage_phase(desired, known, plan, adopted, storage_events);
    let stored = storage_steps(storage_started(plan.operations, adopted), storage_events).ledger;
    lemma_repository_phase(desired, known, plan, bundle.files, stored, repository_events);
    let committed = repository_steps(
        repository_started(plan.operations, bundle.files, stored),
        repository_events,
    ).ledger;
    lemma_hosting_phase(desired, known, plan, bundle, committed, hosting_events);
    let hosted = hosting_steps(
        hosting_started(plan.operations, desired, bundle, committed),
        hosting_events,
    ).ledger;
    lemma_known_listed(known_of(hosted));
    lemma_still_settled(desired, stored, committed, hosted);
    lemma_settled_plan(desired, known_of(hosted));
}

/// What settles one family stays settled where its inventory stays.
proof fn lemma_still_settled(
    desired: DesiredView,
    stored: LedgerView,
    committed: LedgerView,
    hosted: LedgerView,
)
    requires
        objects_settled(desired, known_of(stored)),
        files_settled(desired, known_of(committed)),
        known_hosting(known_of(hosted)) == Some(
            (OperationState::Confirmed, desired.bundle_fingerprint),
        ),
        hosted.r2_inventory == stored.r2_inventory,
        hosted.github_inventory == committed.github_inventory,
    ensures
        settled(desired, known_of(hosted)),
{
    assert forall|k: Seq<char>| #[trigger] desired.storage.dom().contains(k) implies known_object(
        known_of(hosted),
        k,
    ) == Some((OperationState::Confirmed, desired.storage[k].sha256)) by {
        assert(known_object(known_of(stored), k) == known_object(known_of(hosted), k));
    }
    assert forall|k: Seq<char>| #[trigger] desired.repository.dom().contains(k) implies known_file(
        known_of(hosted),
        k,
    ) == Some((OperationState::Confirmed, desired.repository[k].sha256)) by {
        assert(known_file(known_of(committed), k) == known_file(known_of(hosted), k));
    }
    assert forall|k: Seq<char>| #[trigger]
        known_of(hosted).storage.dom().contains(k) implies desired.storage.dom().contains(k) by {
        assert(known_of(stored).storage.dom().contains(k));
    }
    assert forall|k: Seq<char>| #[trigger]
        known_of(hosted).repository.dom().contains(k) implies desired.repository.dom().contains(
        k,
    ) by {
        assert(known_of(committed).repository.dom().contains(k));
    }
}

proof fn lemma_adopted(plan: IntegrationPlanView, desired: DesiredView, ledger: LedgerView)
    ensures
        ({
            let adopted = coordination_started(plan, desired, ledger).ledger;
            &&& adopted.r2_inventory == ledger.r2_inventory
            &&& adopted.github_inventory == ledger.github_inventory
            &&& adopted.vercel == ledger.vercel
            &&& desired.configuration_fingerprint == ledger.configuration_fingerprint
                ==> adopted.configuration_fingerprint == ledger.configuration_fingerprint
        }),
{
}

/// What a plan without requirements says of its parts.
proof fn lemma_planned(desired: DesiredView, known: KnownView, plan: IntegrationPlanView)
    requires
        plan_of(desired, known) == Ok::<IntegrationPlanView, PlannerError>(plan),
        plan.requirements.len() == 0,
    ensures
        desired_error(desired) is None,
        desired.configuration_fingerprint == known.configuration_fingerprint,
        storage_requirements(desired, known).len() == 0,
        repository_requirements(desired, known).len() == 0,
        hosting_requirements(desired, known).len() == 0,
{
    if desired.configuration_fingerprint != known.configuration_fingerprint {
        assert(plan.requirements.len() == 1);
    } else {
        lemma_plan_lengths(desired, known, plan);
    }
}

/// Nothing is left to plan where everything is settled.
proof fn lemma_settled_plan(desired: DesiredView, known: KnownView)
    requires
        well_keyed(desired),
        well_listed(known),
        desired_error(desired) is None,
        desired.configuration_fingerprint == known.configuration_fingerprint,
        settled(desired, known),
    ensures
        plan_of(desired, known) == Ok::<IntegrationPlanView, PlannerError>(
            IntegrationPlanView { operations: Seq::empty(), requirements: Seq::empty() },
        ),
{
    lemma_storage_empty(desired, known);
    lemma_repository_empty(desired, known);
    lemma_hosting_empty(desired, known);
    assert(!has_invalid_known_key(desired, known));
    assert(!has_invalid_known_path(desired, known));
    let plan = plan_of(desired, known)->Ok_0;
    lemma_plan_lengths(desired, known, plan);
    assert(plan.operations =~= Seq::empty());
    assert(plan.requirements =~= Seq::empty());
}

} // verus!
