//! What a plan does and why: every operation has a reason, and every reason an
//! operation or a requirement.

use crate::inventory::{ascending_entries, lemma_listed_entries};
use crate::laws::journal::{is_digest, lemma_digest};
use crate::ledger::{LedgerView, OperationState};
use crate::paths::is_portable_path;
use crate::planner::{
    delete_operation, desired_error, file_requirement, hosting_operations, hosting_requirements,
    known_of, object_requirement, plan_of, put_operation, remove_operation, repository_operations,
    repository_requirements, stale_file_requirement, stale_object_requirement, storage_operations,
    storage_requirements, well_keyed, well_listed, write_operation, DesiredView,
    IntegrationPlanView, KnownView, OperationView, PlannerError, RequirementView,
};
use crate::sequences::{lemma_selected, lemma_selected_from, lemma_selected_in_order};
use crate::text::{is_white_space, text_lt};
use vstd::prelude::*;

verus! {

/// Whether there is a reason for an operation: an upload or a write is of what is
/// desired under its own name, which is not known, or is confirmed with another
/// digest; a removal is of what is confirmed and not desired; and a deployment is of
/// the desired bundle, where no other or another one is confirmed.
pub open spec fn is_due(operation: OperationView, desired: DesiredView, known: KnownView) -> bool {
    match operation {
        OperationView::PutStorage(object) => {
            &&& desired.storage.dom().contains(object.key)
            &&& desired.storage[object.key] == object
            &&& known.storage.dom().contains(object.key) ==> known.storage[object.key].status
                == OperationState::Confirmed && known.storage[object.key].sha256 != object.sha256
        },
        OperationView::DeleteStorage(key) => {
            &&& known.storage.dom().contains(key)
            &&& known.storage[key].status == OperationState::Confirmed
            &&& !desired.storage.dom().contains(key)
        },
        OperationView::WriteRepository(file) => {
            &&& desired.repository.dom().contains(file.path)
            &&& desired.repository[file.path] == file
            &&& known.repository.dom().contains(file.path) ==> known.repository[file.path].status
                == OperationState::Confirmed && known.repository[file.path].sha256 != file.sha256
        },
        OperationView::DeleteRepository(path) => {
            &&& known.repository.dom().contains(path)
            &&& known.repository[path].status == OperationState::Confirmed
            &&& !desired.repository.dom().contains(path)
        },
        OperationView::PublishHosting(fingerprint) => {
            &&& fingerprint == desired.bundle_fingerprint
            &&& known.hosting is Some ==> known.hosting->0.status == OperationState::Confirmed
                && known.hosting->0.bundle_fingerprint != fingerprint
        },
    }
}

/// Whether there is a reason for a requirement: what it names is known, with the
/// status that it names.
pub open spec fn is_open(requirement: RequirementView, desired: DesiredView, known: KnownView) -> bool {
    match requirement {
        RequirementView::ConfigurationChanged => desired.configuration_fingerprint
            != known.configuration_fingerprint,
        RequirementView::StoragePending(key) => known.storage.dom().contains(key)
            && known.storage[key].status == OperationState::Pending,
        RequirementView::StorageUnknown(key) => known.storage.dom().contains(key)
            && known.storage[key].status == OperationState::Unknown,
        RequirementView::RepositoryPending(path) => known.repository.dom().contains(path)
            && known.repository[path].status == OperationState::Pending,
        RequirementView::RepositoryUnknown(path) => known.repository.dom().contains(path)
            && known.repository[path].status == OperationState::Unknown,
        RequirementView::HostingPending(fingerprint) => known.hosting is Some
            && known.hosting->0.status == OperationState::Pending
            && known.hosting->0.bundle_fingerprint == fingerprint,
        RequirementView::HostingUnknown(fingerprint) => known.hosting is Some
            && known.hosting->0.status == OperationState::Unknown
            && known.hosting->0.bundle_fingerprint == fingerprint,
    }
}

// ---------------------------------------------------------------------------
// Storage
// ---------------------------------------------------------------------------
proof fn lemma_storage_planned(desired: DesiredView, known: KnownView, operation: OperationView)
    requires
        well_keyed(desired),
        well_listed(known),
    ensures
        storage_operations(desired, known).contains(operation) <==> (operation is PutStorage
            || operation is DeleteStorage) && is_due(operation, desired, known),
{
    reveal(well_keyed);
    reveal(well_listed);
    reveal(storage_operations);
    let wanted = ascending_entries(desired.storage);
    let there = ascending_entries(known.storage);
    let puts = wanted.filter_map(put_operation(known));
    let deletes = there.filter_map(delete_operation(desired));
    lemma_listed_entries(desired.storage);
    lemma_listed_entries(known.storage);
    let all = puts + deletes;
    if all.contains(operation) {
        let p = choose|p: int| 0 <= p < all.len() && all[p] == operation;
        if p < puts.len() {
            let i = lemma_selected_from(wanted, put_operation(known), p);
            assert(desired.storage.dom().contains(wanted[i].0));
        } else {
            let i = lemma_selected_from(there, delete_operation(desired), p - puts.len());
            assert(known.storage.dom().contains(there[i].0));
        }
    }
    if is_due(operation, desired, known) {
        match operation {
            OperationView::PutStorage(object) => {
                let i = choose|i: int|
                    0 <= i < wanted.len() && #[trigger] wanted[i] == (object.key, object);
                let p = lemma_selected(wanted, put_operation(known), i);
                assert(all[p] == operation);
            },
            OperationView::DeleteStorage(key) => {
                let i = choose|i: int|
                    0 <= i < there.len() && #[trigger] there[i] == (key, known.storage[key]);
                let p = lemma_selected(there, delete_operation(desired), i);
                assert(all[puts.len() + p] == operation);
            },
            _ => {},
        }
    }
}

proof fn lemma_storage_required(desired: DesiredView, known: KnownView, q: int)
    requires
        well_keyed(desired),
        well_listed(known),
        0 <= q < storage_requirements(desired, known).len(),
    ensures
        is_open(storage_requirements(desired, known)[q], desired, known),
{
    reveal(well_keyed);
    reveal(well_listed);
    reveal(storage_requirements);
    let wanted = ascending_entries(desired.storage);
    let there = ascending_entries(known.storage);
    let first = wanted.filter_map(object_requirement(known));
    lemma_listed_entries(desired.storage);
    lemma_listed_entries(known.storage);
    if q < first.len() {
        let i = lemma_selected_from(wanted, object_requirement(known), q);
        assert(desired.storage.dom().contains(wanted[i].0));
    } else {
        let i = lemma_selected_from(there, stale_object_requirement(desired), q - first.len());
        assert(known.storage.dom().contains(there[i].0));
    }
}

// ---------------------------------------------------------------------------
// Repository
// ---------------------------------------------------------------------------
proof fn lemma_repository_planned(desired: DesiredView, known: KnownView, operation: OperationView)
    requires
        well_keyed(desired),
        well_listed(known),
    ensures
        repository_operations(desired, known).contains(operation) <==> (operation is WriteRepository
            || operation is DeleteRepository) && is_due(operation, desired, known),
{
    reveal(well_keyed);
    reveal(well_listed);
    reveal(repository_operations);
    let wanted = ascending_entries(desired.repository);
    let there = ascending_entries(known.repository);
    let writes = wanted.filter_map(write_operation(known));
    let removals = there.filter_map(remove_operation(desired));
    lemma_listed_entries(desired.repository);
    lemma_listed_entries(known.repository);
    let all = writes + removals;
    if all.contains(operation) {
        let p = choose|p: int| 0 <= p < all.len() && all[p] == operation;
        if p < writes.len() {
            let i = lemma_selected_from(wanted, write_operation(known), p);
            assert(desired.repository.dom().contains(wanted[i].0));
        } else {
            let i = lemma_selected_from(there, remove_operation(desired), p - writes.len());
            assert(known.repository.dom().contains(there[i].0));
        }
    }
    if is_due(operation, desired, known) {
        match operation {
            OperationView::WriteRepository(file) => {
                let i = choose|i: int|
                    0 <= i < wanted.len() && #[trigger] wanted[i] == (file.path, file);
                let p = lemma_selected(wanted, write_operation(known), i);
                assert(all[p] == operation);
            },
            OperationView::DeleteRepository(path) => {
                let i = choose|i: int|
                    0 <= i < there.len() && #[trigger] there[i] == (path, known.repository[path]);
                let p = lemma_selected(there, remove_operation(desired), i);
                assert(all[writes.len() + p] == operation);
            },
            _ => {},
        }
    }
}

proof fn lemma_repository_required(desired: DesiredView, known: KnownView, q: int)
    requires
        well_keyed(desired),
        well_listed(known),
        0 <= q < repository_requirements(desired, known).len(),
    ensures
        is_open(repository_requirements(desired, known)[q], desired, known),
{
    reveal(well_keyed);
    reveal(well_listed);
    reveal(repository_requirements);
    let wanted = ascending_entries(desired.repository);
    let there = ascending_entries(known.repository);
    let first = wanted.filter_map(file_requirement(known));
    lemma_listed_entries(desired.repository);
    lemma_listed_entries(known.repository);
    if q < first.len() {
        let i = lemma_selected_from(wanted, file_requirement(known), q);
        assert(desired.repository.dom().contains(wanted[i].0));
    } else {
        let i = lemma_selected_from(there, stale_file_requirement(desired), q - first.len());
        assert(known.repository.dom().contains(there[i].0));
    }
}

// ---------------------------------------------------------------------------
// The whole plan
// ---------------------------------------------------------------------------
/// A plan under an unchanged configuration holds exactly the operations that there is
/// a reason for.
pub proof fn law_planned_is_due(
    desired: DesiredView,
    known: KnownView,
    plan: IntegrationPlanView,
    operation: OperationView,
)
    requires
        well_keyed(desired),
        well_listed(known),
        desired.configuration_fingerprint == known.configuration_fingerprint,
        plan_of(desired, known) == Ok::<IntegrationPlanView, PlannerError>(plan),
    ensures
        plan.operations.contains(operation) <==> is_due(operation, desired, known),
{
    let a = storage_operations(desired, known);
    let b = repository_operations(desired, known);
    let c = hosting_operations(desired, known);
    lemma_storage_planned(desired, known, operation);
    lemma_repository_planned(desired, known, operation);
    let all = a + b + c;
    if all.contains(operation) {
        let p = choose|p: int| 0 <= p < all.len() && all[p] == operation;
        if p < a.len() {
            assert(a[p] == operation);
        } else if p < a.len() + b.len() {
            assert(b[p - a.len()] == operation);
        } else {
            assert(c[p - a.len() - b.len()] == operation);
        }
    }
    if is_due(operation, desired, known) {
        if a.contains(operation) {
            let p = choose|p: int| 0 <= p < a.len() && a[p] == operation;
            assert(all[p] == operation);
        } else if b.contains(operation) {
            let p = choose|p: int| 0 <= p < b.len() && b[p] == operation;
            assert(all[a.len() + p] == operation);
        } else {
            assert(c.len() == 1 && c[0] == operation);
            assert(all[(a.len() + b.len()) as int] == operation);
        }
    }
}

/// Every requirement of a plan has a reason, and under a changed configuration the
/// change is the only one and nothing is planned.
pub proof fn law_required_is_open(
    desired: DesiredView,
    known: KnownView,
    plan: IntegrationPlanView,
    q: int,
)
    requires
        well_keyed(desired),
        well_listed(known),
        plan_of(desired, known) == Ok::<IntegrationPlanView, PlannerError>(plan),
        0 <= q < plan.requirements.len(),
    ensures
        is_open(plan.requirements[q], desired, known),
        plan.requirements[q] is ConfigurationChanged ==> plan.operations.len() == 0
            && plan.requirements.len() == 1,
{
    if desired.configuration_fingerprint == known.configuration_fingerprint {
        let a = storage_requirements(desired, known);
        let b = repository_requirements(desired, known);
        let c = hosting_requirements(desired, known);
        if q < a.len() {
            assert(plan.requirements[q] == a[q]);
            lemma_storage_required(desired, known, q);
        } else if q < a.len() + b.len() {
            assert(plan.requirements[q] == b[q - a.len()]);
            lemma_repository_required(desired, known, q - a.len());
        } else {
            assert(plan.requirements[q] == c[q - a.len() - b.len()]);
        }
    }
}

/// A plan is refused exactly where what is desired is not valid, or, under an
/// unchanged configuration, where something known that is not desired has a name that
/// is no portable path.
pub proof fn law_plan_is_refused_iff(desired: DesiredView, known: KnownView)
    ensures
        plan_of(desired, known) is Err <==> desired_error(desired) is Some || (
        desired.configuration_fingerprint == known.configuration_fingerprint && ((exists|
            k: Seq<char>,
        | #[trigger]
            known.storage.dom().contains(k) && !desired.storage.dom().contains(k)
                && !is_portable_path(k)) || (exists|k: Seq<char>| #[trigger]
            known.repository.dom().contains(k) && !desired.repository.dom().contains(k)
                && !is_portable_path(k)))),
{
}

/// A desired publication is valid exactly where its fingerprints and its hashes are
/// digests and its generation is not blank.
pub proof fn law_valid_desired_iff(v: DesiredView)
    ensures
        desired_error(v) is None <==> {
            &&& is_digest(v.configuration_fingerprint)
            &&& is_digest(v.bundle_fingerprint)
            &&& is_digest(v.local.state_hash)
            &&& is_digest(v.local.manifest_hash)
            &&& exists|i: int|
                0 <= i < v.local.generation.len() && !is_white_space(
                    #[trigger] v.local.generation[i],
                )
        },
{
    lemma_digest(v.configuration_fingerprint);
    lemma_digest(v.bundle_fingerprint);
    lemma_digest(v.local.state_hash);
    lemma_digest(v.local.manifest_hash);
}

/// Storage is planned before the repository and the repository before hosting; within
/// each, what is put or written comes before what is removed, in ascending order of the
/// names.
pub proof fn law_plan_is_in_order(
    desired: DesiredView,
    known: KnownView,
    plan: IntegrationPlanView,
    i: int,
    j: int,
)
    requires
        well_keyed(desired),
        well_listed(known),
        plan_of(desired, known) == Ok::<IntegrationPlanView, PlannerError>(plan),
        0 <= i < j < plan.operations.len(),
    ensures
        comes_before(plan.operations[i], plan.operations[j]),
{
    reveal(storage_operations);
    reveal(repository_operations);
    reveal(well_keyed);
    reveal(well_listed);
    let puts = ascending_entries(desired.storage).filter_map(put_operation(known));
    let deletes = ascending_entries(known.storage).filter_map(delete_operation(desired));
    let writes = ascending_entries(desired.repository).filter_map(write_operation(known));
    let removals = ascending_entries(known.repository).filter_map(remove_operation(desired));
    let c = hosting_operations(desired, known);
    lemma_listed_entries(desired.storage);
    lemma_listed_entries(desired.repository);
    let all = puts + deletes + (writes + removals) + c;
    assert(plan.operations =~= all);
    lemma_part(all, puts, deletes, writes, removals, c, i);
    lemma_part(all, puts, deletes, writes, removals, c, j);
    let (n1, n2) = (puts.len(), puts.len() + deletes.len());
    let (n3, n4) = (n2 + writes.len(), n2 + writes.len() + removals.len());
    let (pi, pj) = (part_of(i, n1, n2, n3, n4), part_of(j, n1, n2, n3, n4));
    lemma_kinds(desired, known, plan, i);
    lemma_kinds(desired, known, plan, j);
    if pi == pj {
        if pi == 0 {
            let r = lemma_selected_in_order(
                ascending_entries(desired.storage),
                put_operation(known),
                i,
                j,
            );
            assert(desired.storage.dom().contains(ascending_entries(desired.storage)[r.0].0));
            assert(desired.storage.dom().contains(ascending_entries(desired.storage)[r.1].0));
        } else if pi == 1 {
            let r = lemma_selected_in_order(
                ascending_entries(known.storage),
                delete_operation(desired),
                i - n1,
                j - n1,
            );
        } else if pi == 2 {
            let r = lemma_selected_in_order(
                ascending_entries(desired.repository),
                write_operation(known),
                i - n2,
                j - n2,
            );
            assert(desired.repository.dom().contains(ascending_entries(desired.repository)[r.0].0));
            assert(desired.repository.dom().contains(ascending_entries(desired.repository)[r.1].0));
        } else if pi == 3 {
            let r = lemma_selected_in_order(
                ascending_entries(known.repository),
                remove_operation(desired),
                i - n3,
                j - n3,
            );
        }
    }
}

spec fn part_of(i: int, n1: nat, n2: nat, n3: nat, n4: nat) -> u8 {
    if i < n1 {
        0
    } else if i < n2 {
        1
    } else if i < n3 {
        2
    } else if i < n4 {
        3
    } else {
        4
    }
}

proof fn lemma_part(
    all: Seq<OperationView>,
    puts: Seq<OperationView>,
    deletes: Seq<OperationView>,
    writes: Seq<OperationView>,
    removals: Seq<OperationView>,
    c: Seq<OperationView>,
    i: int,
)
    requires
        all == puts + deletes + (writes + removals) + c,
        0 <= i < all.len(),
    ensures
        ({
            let (n1, n2) = (puts.len(), puts.len() + deletes.len());
            let (n3, n4) = (n2 + writes.len(), n2 + writes.len() + removals.len());
            match part_of(i, n1, n2, n3, n4) {
                0 => all[i] == puts[i],
                1 => all[i] == deletes[i - n1],
                2 => all[i] == writes[i - n2],
                3 => all[i] == removals[i - n3],
                _ => all[i] == c[i - n4],
            }
        }),
{
}

proof fn lemma_kinds(desired: DesiredView, known: KnownView, plan: IntegrationPlanView, i: int)
    requires
        plan_of(desired, known) == Ok::<IntegrationPlanView, PlannerError>(plan),
        0 <= i < plan.operations.len(),
    ensures
        ({
            let puts = ascending_entries(desired.storage).filter_map(put_operation(known));
            let deletes = ascending_entries(known.storage).filter_map(delete_operation(desired));
            let writes = ascending_entries(desired.repository).filter_map(write_operation(known));
            let removals = ascending_entries(known.repository).filter_map(
                remove_operation(desired),
            );
            let (n1, n2) = (puts.len(), puts.len() + deletes.len());
            let (n3, n4) = (n2 + writes.len(), n2 + writes.len() + removals.len());
            kind_rank(plan.operations[i]) == part_of(i, n1, n2, n3, n4)
        }),
{
    reveal(storage_operations);
    reveal(repository_operations);
    let puts = ascending_entries(desired.storage).filter_map(put_operation(known));
    let deletes = ascending_entries(known.storage).filter_map(delete_operation(desired));
    let writes = ascending_entries(desired.repository).filter_map(write_operation(known));
    let removals = ascending_entries(known.repository).filter_map(remove_operation(desired));
    let c = hosting_operations(desired, known);
    let all = puts + deletes + (writes + removals) + c;
    assert(plan.operations =~= all);
    lemma_part(all, puts, deletes, writes, removals, c, i);
    let (n1, n2) = (puts.len(), puts.len() + deletes.len());
    let (n3, n4) = (n2 + writes.len(), n2 + writes.len() + removals.len());
    match part_of(i, n1, n2, n3, n4) {
        0 => {
            let k = lemma_selected_from(ascending_entries(desired.storage), put_operation(known), i);
        },
        1 => {
            let k = lemma_selected_from(
                ascending_entries(known.storage),
                delete_operation(desired),
                i - n1,
            );
        },
        2 => {
            let k = lemma_selected_from(
                ascending_entries(desired.repository),
                write_operation(known),
                i - n2,
            );
        },
        3 => {
            let k = lemma_selected_from(
                ascending_entries(known.repository),
                remove_operation(desired),
                i - n3,
            );
        },
        _ => {},
    }
}

/// The rank of the kind of an operation in a plan.
pub open spec fn kind_rank(operation: OperationView) -> u8 {
    match operation {
        OperationView::PutStorage(_) => 0,
        OperationView::DeleteStorage(_) => 1,
        OperationView::WriteRepository(_) => 2,
        OperationView::DeleteRepository(_) => 3,
        OperationView::PublishHosting(_) => 4,
    }
}

/// Whether an operation comes before another: by the rank of its kind, and among
/// operations of one kind by the name of what it is about.
pub open spec fn comes_before(a: OperationView, b: OperationView) -> bool {
    kind_rank(a) < kind_rank(b) || match (a, b) {
        (OperationView::PutStorage(x), OperationView::PutStorage(y)) => text_lt(x.key, y.key),
        (OperationView::DeleteStorage(x), OperationView::DeleteStorage(y)) => text_lt(x, y),
        (OperationView::WriteRepository(x), OperationView::WriteRepository(y)) => text_lt(
            x.path,
            y.path,
        ),
        (OperationView::DeleteRepository(x), OperationView::DeleteRepository(y)) => text_lt(x, y),
        _ => false,
    }
}

/// What is known before a plan is what the ledger says: its configuration, and each
/// object, file and deployment as it is recorded.
pub proof fn law_known_is_what_the_ledger_says(v: LedgerView)
    ensures
        known_of(v).configuration_fingerprint == v.configuration_fingerprint,
        forall|key: Seq<char>| #[trigger]
            known_of(v).storage.dom().contains(key) <==> v.r2_inventory.dom().contains(key),
        forall|key: Seq<char>|
            v.r2_inventory.dom().contains(key) ==> #[trigger] known_of(v).storage[key]
                == v.r2_inventory[key],
        forall|path: Seq<char>| #[trigger]
            known_of(v).repository.dom().contains(path) <==> v.github_inventory.dom().contains(
                path,
            ),
        forall|path: Seq<char>|
            v.github_inventory.dom().contains(path) ==> #[trigger] known_of(v).repository[path]
                == v.github_inventory[path],
        known_of(v).hosting == v.vercel,
{
}

/// Under an unchanged configuration everything that is pending or unknown is required
/// to be settled, and a changed configuration is required to be settled alone.
pub proof fn law_open_is_required(
    desired: DesiredView,
    known: KnownView,
    plan: IntegrationPlanView,
    requirement: RequirementView,
)
    requires
        well_keyed(desired),
        well_listed(known),
        plan_of(desired, known) == Ok::<IntegrationPlanView, PlannerError>(plan),
        is_open(requirement, desired, known),
    ensures
        desired.configuration_fingerprint == known.configuration_fingerprint
            ==> plan.requirements.contains(requirement),
        desired.configuration_fingerprint != known.configuration_fingerprint ==> plan.requirements
            == seq![RequirementView::ConfigurationChanged] && plan.operations.len() == 0,
{
    reveal(well_keyed);
    reveal(well_listed);
    reveal(storage_requirements);
    reveal(repository_requirements);
    let a = storage_requirements(desired, known);
    let b = repository_requirements(desired, known);
    let c = hosting_requirements(desired, known);
    let all = a + b + c;
    if desired.configuration_fingerprint == known.configuration_fingerprint {
        match requirement {
            RequirementView::StoragePending(key) | RequirementView::StorageUnknown(key) => {
                let p = lemma_object_required(desired, known, key, requirement);
                assert(all[p] == requirement);
            },
            RequirementView::RepositoryPending(path) | RequirementView::RepositoryUnknown(path) => {
                let p = lemma_file_required(desired, known, path, requirement);
                assert(all[a.len() + p] == requirement);
            },
            _ => {
                assert(c.len() == 1 && c[0] == requirement);
                assert(all[(a.len() + b.len()) as int] == requirement);
            },
        }
    }
}

proof fn lemma_object_required(
    desired: DesiredView,
    known: KnownView,
    key: Seq<char>,
    requirement: RequirementView,
) -> (p: int)
    requires
        well_keyed(desired),
        well_listed(known),
        is_open(requirement, desired, known),
        requirement == RequirementView::StoragePending(key) || requirement
            == RequirementView::StorageUnknown(key),
    ensures
        0 <= p < storage_requirements(desired, known).len(),
        storage_requirements(desired, known)[p] == requirement,
{
    reveal(well_keyed);
    reveal(well_listed);
    reveal(storage_requirements);
    let wanted = ascending_entries(desired.storage);
    let there = ascending_entries(known.storage);
    let first = wanted.filter_map(object_requirement(known));
    lemma_listed_entries(desired.storage);
    lemma_listed_entries(known.storage);
    if desired.storage.dom().contains(key) {
        let i = choose|i: int|
            0 <= i < wanted.len() && #[trigger] wanted[i] == (key, desired.storage[key]);
        lemma_selected(wanted, object_requirement(known), i)
    } else {
        let i = choose|i: int|
            0 <= i < there.len() && #[trigger] there[i] == (key, known.storage[key]);
        first.len() + lemma_selected(there, stale_object_requirement(desired), i)
    }
}

proof fn lemma_file_required(
    desired: DesiredView,
    known: KnownView,
    path: Seq<char>,
    requirement: RequirementView,
) -> (p: int)
    requires
        well_keyed(desired),
        well_listed(known),
        is_open(requirement, desired, known),
        requirement == RequirementView::RepositoryPending(path) || requirement
            == RequirementView::RepositoryUnknown(path),
    ensures
        0 <= p < repository_requirements(desired, known).len(),
        repository_requirements(desired, known)[p] == requirement,
{
    reveal(well_keyed);
    reveal(well_listed);
    reveal(repository_requirements);
    let wanted = ascending_entries(desired.repository);
    let there = ascending_entries(known.repository);
    let first = wanted.filter_map(file_requirement(known));
    lemma_listed_entries(desired.repository);
    lemma_listed_entries(known.repository);
    if desired.repository.dom().contains(path) {
        let i = choose|i: int|
            0 <= i < wanted.len() && #[trigger] wanted[i] == (path, desired.repository[path]);
        lemma_selected(wanted, file_requirement(known), i)
    } else {
        let i = choose|i: int|
            0 <= i < there.len() && #[trigger] there[i] == (path, known.repository[path]);
        first.len() + lemma_selected(there, stale_file_requirement(desired), i)
    }
}

} // verus!
