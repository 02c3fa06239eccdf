//! How objects are stored and deleted, and what the ledger says of it.

use crate::executor::{
    deleted_keys, failure_kind, intended_object, recorded_object, storage_action, storage_entered,
    storage_step, uploaded_keys, StorageActionView, StorageErrorView, StorageEventView, StorageRun,
    StorageStageView,
};
use crate::file_source::{
    source_error, source_problem_text, FileObservationView, SourceError, SourceRole,
};
use crate::laws::journal::{is_digest, lemma_digest};
use crate::laws::ledgers::{law_object_is_recorded, law_object_is_removed, same_objects_but};
use crate::ledger::{ledger_valid, LedgerFailureView, LedgerView, OperationState};
use crate::paths::is_portable_path;
use crate::planner::{DesiredObjectView, OperationView};
use crate::provider::{FailureKind, FailureView, ProviderErrorText, StorageObjectView};
use vstd::prelude::*;

verus! {

/// A file is the planned one exactly where it was read whole, with the planned size
/// before and after the reading and with the planned digest.
pub proof fn law_source_is_accepted_iff(
    role: SourceRole,
    source: Seq<char>,
    seen: FileObservationView,
    sha256: Seq<char>,
    size_bytes: u64,
)
    ensures
        source_error(seen, sha256, size_bytes) is None <==> seen == (FileObservationView::Read {
            declared_size: size_bytes,
            bytes_read: size_bytes,
            sha256,
        }),
        source_problem_text(role, source, seen, sha256, size_bytes) is None <==> seen == (
        FileObservationView::Read { declared_size: size_bytes, bytes_read: size_bytes, sha256 }),
{
}

/// What a file is refused for was seen of it.
pub proof fn law_source_error_has_its_cause(
    seen: FileObservationView,
    sha256: Seq<char>,
    size_bytes: u64,
)
    ensures
        match source_error(seen, sha256, size_bytes) {
            None => true,
            Some(SourceError::Missing) => seen is Missing,
            Some(SourceError::NotRegular) => seen is NotRegular,
            Some(SourceError::Unresolvable) => seen is Unresolvable,
            Some(SourceError::OutsideRoot) => seen is OutsideRoot,
            Some(SourceError::Unopened) => seen is Unopened,
            Some(SourceError::Unhashed) => seen is Unhashed,
            Some(SourceError::NotRewound) => seen is NotRewound,
            Some(SourceError::WrongSize) => match seen {
                FileObservationView::Unopened { declared_size, .. } => declared_size != size_bytes,
                FileObservationView::Unhashed { declared_size, .. } => declared_size != size_bytes,
                FileObservationView::Read { declared_size, .. } => declared_size != size_bytes,
                FileObservationView::NotRewound { declared_size, .. } => declared_size
                    != size_bytes,
                _ => false,
            },
            Some(SourceError::ChangedWhileRead) => match seen {
                FileObservationView::Read { declared_size, bytes_read, .. } => bytes_read
                    != declared_size,
                FileObservationView::NotRewound { declared_size, bytes_read, .. } => bytes_read
                    != declared_size,
                _ => false,
            },
            Some(SourceError::WrongDigest) => match seen {
                FileObservationView::Read { sha256: found, .. } => found != sha256,
                FileObservationView::NotRewound { sha256: found, .. } => found != sha256,
                _ => false,
            },
        },
{
}

/// The storage may have changed after a failure of the network, a conflict, an
/// existing object, a failed integrity check and a failure of unknown kind, and after
/// no other.
pub proof fn law_uncertain_storage_failures(error: ProviderErrorText)
    ensures
        failure_kind(error) == FailureKind::Ambiguous <==> {
            ||| error is Network
            ||| error is Conflict
            ||| error is AlreadyExists
            ||| error is Integrity
            ||| error is Other
        },
        failure_kind(error) == FailureKind::NoEffect <==> {
            ||| error is Io
            ||| error is InvalidKey
            ||| error is InvalidPath
            ||| error is AuthenticationRequired
            ||| error is AuthenticationFailed
            ||| error is PermissionDenied
            ||| error is NotFound
            ||| error is Unsupported
        },
{
}

/// Whether the ledger says that an object is stored.
pub open spec fn is_stored(ledger: LedgerView, key: Seq<char>) -> bool {
    ledger.r2_inventory.dom().contains(key) && ledger.r2_inventory[key].status
        == OperationState::Confirmed
}

/// An upload is taken up exactly where the ledger does not have the object or says
/// that it is stored: the run asks for its source file, and the ledger stays. Another
/// one is refused as inconsistent with the ledger.
pub proof fn law_upload_is_taken_up_iff(run: StorageRun, desired: DesiredObjectView)
    requires
        0 <= run.index < run.operations.len(),
        run.operations[run.index] == OperationView::PutStorage(desired),
    ensures
        ({
            let after = storage_entered(run);
            &&& after.ledger == run.ledger
            &&& after.index == run.index
            &&& after.operations == run.operations
            &&& if !run.ledger.r2_inventory.dom().contains(desired.key) || is_stored(
                run.ledger,
                desired.key,
            ) {
                storage_action(after) == StorageActionView::Examine(desired.source_path)
            } else {
                &&& storage_action(after) is Finished
                &&& after.stage matches StorageStageView::Done(
                    Some(StorageErrorView::InconsistentPlan(_)),
                )
            }
        }),
{
}

/// A deletion is taken up exactly where the ledger says that the object is stored: the
/// run asks for the ledger to be written with the object as pending and otherwise as
/// it was recorded. Another one is refused as inconsistent with the ledger.
pub proof fn law_deletion_is_taken_up_iff(run: StorageRun, key: Seq<char>)
    requires
        ledger_valid(run.ledger),
        0 <= run.index < run.operations.len(),
        run.operations[run.index] == OperationView::DeleteStorage(key),
    ensures
        ({
            let after = storage_entered(run);
            if is_stored(run.ledger, key) {
                let before = run.ledger.r2_inventory[key];
                &&& storage_action(after) == StorageActionView::Persist(after.ledger)
                &&& after.ledger.r2_inventory.dom().contains(key)
                &&& after.ledger.r2_inventory[key].status == OperationState::Pending
                &&& after.ledger.r2_inventory[key].sha256 == before.sha256
                &&& after.ledger.r2_inventory[key].size_bytes == before.size_bytes
                &&& after.ledger.r2_inventory[key].content_type == before.content_type
                &&& same_objects_but(run.ledger, after.ledger, key)
            } else {
                &&& after.ledger == run.ledger
                &&& after.stage matches StorageStageView::Done(
                    Some(StorageErrorView::InconsistentPlan(_)),
                )
            }
        }),
{
    if is_stored(run.ledger, key) {
        let entry = run.ledger.r2_inventory[key];
        let object = recorded_object(key, entry);
        lemma_digest(entry.sha256);
        law_object_is_recorded(run.ledger, key, object, OperationState::Pending);
    }
}

/// Once its file was found to be the planned one, the object is recorded as pending
/// with the planned digest, size and media type, and the run asks for the ledger to be
/// written; once that is done it asks for the upload.
pub proof fn law_valid_source_is_uploaded(
    run: StorageRun,
    desired: DesiredObjectView,
    seen: FileObservationView,
)
    requires
        ledger_valid(run.ledger),
        is_portable_path(desired.key),
        is_digest(desired.sha256),
        0 <= run.index < run.operations.len(),
        run.operations[run.index] == OperationView::PutStorage(desired),
        storage_action(run) is Examine,
        seen == (FileObservationView::Read {
            declared_size: desired.size_bytes,
            bytes_read: desired.size_bytes,
            sha256: desired.sha256,
        }),
    ensures
        ({
            let marked = storage_step(run, StorageEventView::Examined(seen));
            let entry = marked.ledger.r2_inventory[desired.key];
            &&& storage_action(marked) == StorageActionView::Persist(marked.ledger)
            &&& marked.ledger.r2_inventory.dom().contains(desired.key)
            &&& entry.status == OperationState::Pending
            &&& entry.sha256 == desired.sha256
            &&& entry.size_bytes == desired.size_bytes
            &&& entry.content_type == desired.content_type
            &&& same_objects_but(run.ledger, marked.ledger, desired.key)
            &&& storage_action(storage_step(marked, StorageEventView::Persisted))
                == StorageActionView::Put(desired)
        }),
{
    law_object_is_recorded(
        run.ledger,
        desired.key,
        intended_object(desired),
        OperationState::Pending,
    );
}

/// An upload that was answered with an object of the same key is recorded as
/// confirmed, with what was answered. Where that is not what was planned, the run ends
/// once this is written; else the next operation is taken up.
pub proof fn law_answered_upload_is_confirmed(
    run: StorageRun,
    desired: DesiredObjectView,
    answer: StorageObjectView,
)
    requires
        ledger_valid(run.ledger),
        is_portable_path(desired.key),
        is_digest(answer.sha256),
        answer.key == desired.key,
        0 <= run.index < run.operations.len(),
        run.operations[run.index] == OperationView::PutStorage(desired),
        storage_action(run) is Put,
    ensures
        ({
            let after = storage_step(run, StorageEventView::Stored(Ok(answer)));
            let written = storage_step(after, StorageEventView::Persisted);
            let entry = after.ledger.r2_inventory[desired.key];
            let planned = answer.sha256 == desired.sha256 && answer.size_bytes
                == desired.size_bytes && answer.content_type == desired.content_type;
            &&& storage_action(after) == StorageActionView::Persist(after.ledger)
            &&& after.ledger.r2_inventory.dom().contains(desired.key)
            &&& entry.status == OperationState::Confirmed
            &&& entry.sha256 == answer.sha256
            &&& entry.size_bytes == answer.size_bytes
            &&& entry.content_type == answer.content_type
            &&& same_objects_but(run.ledger, after.ledger, desired.key)
            &&& planned ==> written == storage_entered(
                (StorageRun { index: run.index + 1, ..after }),
            )
            &&& !planned ==> {
                &&& written.ledger == after.ledger
                &&& written.stage matches StorageStageView::Done(
                    Some(StorageErrorView::InconsistentUpload(key, _)),
                ) && key == desired.key
            }
        }),
{
    law_object_is_recorded(run.ledger, desired.key, answer, OperationState::Confirmed);
    let after = storage_step(run, StorageEventView::Stored(Ok(answer)));
    if answer.sha256 == desired.sha256 && answer.size_bytes == desired.size_bytes
        && answer.content_type == desired.content_type {
        assert(answer == intended_object(desired));
        assert(after.stage == StorageStageView::PersistOutcome(None));
    } else {
        assert(answer != intended_object(desired));
    }
}

/// An upload that was answered with another key, or failed in a way after which the
/// storage may have changed, is recorded as unknown with what was planned.
pub proof fn law_uncertain_upload_is_unknown(
    run: StorageRun,
    desired: DesiredObjectView,
    outcome: Result<StorageObjectView, FailureView>,
)
    requires
        ledger_valid(run.ledger),
        is_portable_path(desired.key),
        is_digest(desired.sha256),
        0 <= run.index < run.operations.len(),
        run.operations[run.index] == OperationView::PutStorage(desired),
        storage_action(run) is Put,
        match outcome {
            Ok(answer) => answer.key != desired.key,
            Err(failure) => failure.error is Network || failure.error is Conflict
                || failure.error is AlreadyExists || failure.error is Integrity
                || failure.error is Other,
        },
    ensures
        ({
            let after = storage_step(run, StorageEventView::Stored(outcome));
            let entry = after.ledger.r2_inventory[desired.key];
            &&& after.ledger.r2_inventory.dom().contains(desired.key)
            &&& entry.status == OperationState::Unknown
            &&& entry.sha256 == desired.sha256
            &&& entry.size_bytes == desired.size_bytes
            &&& entry.content_type == desired.content_type
            &&& same_objects_but(run.ledger, after.ledger, desired.key)
            &&& after.stage matches StorageStageView::PersistOutcome(
                Some(StorageErrorView::Ambiguous(key, _)),
            ) && key == desired.key
        }),
{
    law_object_is_recorded(
        run.ledger,
        desired.key,
        intended_object(desired),
        OperationState::Unknown,
    );
}

/// A deletion that succeeded, or found the object gone, takes the object out of the
/// ledger, and the next operation is taken up once this is written.
pub proof fn law_deleted_object_is_forgotten(
    run: StorageRun,
    key: Seq<char>,
    outcome: Result<(), FailureView>,
)
    requires
        ledger_valid(run.ledger),
        run.ledger.r2_inventory.dom().contains(key),
        0 <= run.index < run.operations.len(),
        run.operations[run.index] == OperationView::DeleteStorage(key),
        storage_action(run) is Delete,
        outcome matches Err(failure) ==> failure.error is NotFound,
    ensures
        ({
            let after = storage_step(run, StorageEventView::Deleted(outcome));
            &&& storage_action(after) == StorageActionView::Persist(after.ledger)
            &&& !after.ledger.r2_inventory.dom().contains(key)
            &&& same_objects_but(run.ledger, after.ledger, key)
            &&& storage_step(after, StorageEventView::Persisted) == storage_entered(
                (StorageRun { index: run.index + 1, ..after }),
            )
        }),
{
    law_object_is_removed(run.ledger, key);
}

/// A deletion that failed for another reason leaves the object in the ledger as it was
/// recorded before: confirmed where nothing can have changed, else unknown.
pub proof fn law_failed_deletion_keeps_the_object(
    run: StorageRun,
    key: Seq<char>,
    failure: FailureView,
)
    requires
        ledger_valid(run.ledger),
        is_portable_path(key),
        run.previous matches Some(before) && is_digest(before.sha256),
        0 <= run.index < run.operations.len(),
        run.operations[run.index] == OperationView::DeleteStorage(key),
        storage_action(run) is Delete,
        !(failure.error is NotFound),
    ensures
        ({
            let after = storage_step(run, StorageEventView::Deleted(Err(failure)));
            let entry = after.ledger.r2_inventory[key];
            let uncertain = failure.error is Network || failure.error is Conflict
                || failure.error is AlreadyExists || failure.error is Integrity
                || failure.error is Other;
            &&& after.ledger.r2_inventory.dom().contains(key)
            &&& entry.sha256 == run.previous->0.sha256
            &&& entry.size_bytes == run.previous->0.size_bytes
            &&& entry.content_type == run.previous->0.content_type
            &&& same_objects_but(run.ledger, after.ledger, key)
            &&& uncertain ==> entry.status == OperationState::Unknown && (
            after.stage matches StorageStageView::PersistOutcome(
                Some(StorageErrorView::Ambiguous(k, _)),
            ) && k == key)
            &&& !uncertain ==> entry.status == OperationState::Confirmed && (
            after.stage matches StorageStageView::PersistOutcome(
                Some(StorageErrorView::Rejected(k, _)),
            ) && k == key)
        }),
{
    let object = recorded_object(key, run.previous->0);
    law_object_is_recorded(run.ledger, key, object, OperationState::Unknown);
    law_object_is_recorded(run.ledger, key, object, OperationState::Confirmed);
}

/// A run whose ledger could not be written ends with the ledger that was found on
/// disk, or with its own where none could be read.
pub proof fn law_unwritten_storage_ledger(
    run: StorageRun,
    durable: Option<LedgerView>,
    message: Seq<char>,
)
    requires
        storage_action(run) is Persist,
    ensures
        ({
            let after = storage_step(run, StorageEventView::NotPersisted(durable, message));
            &&& after.ledger == match durable {
                Some(found) => found,
                None => run.ledger,
            }
            &&& after.stage == StorageStageView::Done(
                Some(StorageErrorView::Ledger(LedgerFailureView::NotPersisted(message))),
            )
        }),
{
}

/// A run reports the keys of its uploads and of its deletions, in their order, and no
/// others.
pub proof fn law_storage_report(operations: Seq<OperationView>, operation: OperationView)
    ensures
        uploaded_keys(Seq::empty()) == Seq::<Seq<char>>::empty(),
        deleted_keys(Seq::empty()) == Seq::<Seq<char>>::empty(),
        uploaded_keys(operations.push(operation)) == match operation {
            OperationView::PutStorage(desired) => uploaded_keys(operations).push(desired.key),
            _ => uploaded_keys(operations),
        },
        deleted_keys(operations.push(operation)) == match operation {
            OperationView::DeleteStorage(key) => deleted_keys(operations).push(key),
            _ => deleted_keys(operations),
        },
{
    reveal(Seq::filter_map);
    let all = operations.push(operation);
    assert(all.drop_last() =~= operations);
}

/// A run that waits for something is not moved by anything else.
pub proof fn law_storage_waits(run: StorageRun, event: StorageEventView)
    requires
        match run.stage {
            StorageStageView::Examine => !(event is Examined),
            StorageStageView::Remote => match run.operations[run.index] {
                OperationView::PutStorage(_) => !(event is Stored),
                OperationView::DeleteStorage(_) => !(event is Deleted),
                _ => true,
            },
            StorageStageView::Done(_) => true,
            _ => !(event is Persisted) && !(event is NotPersisted),
        },
    ensures
        storage_step(run, event) == run,
{
}

} // verus!
