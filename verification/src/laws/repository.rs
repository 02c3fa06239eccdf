//! How files are committed, and what the ledger says of it.

use crate::bundle::content_at;
use crate::digest::hex_sha256;
use crate::file_source::{FileObservationView, SourceRole};
use crate::laws::ledgers::{same_publication, says_something};
use crate::laws::storage::law_source_is_accepted_iff;
use crate::ledger::{
    github_entry_error, ledger_valid, LedgerFailureView, LedgerView, OperationState,
};
use crate::planner::{DesiredFileView, OperationView, SourceView};
use crate::provider::{FailureKind, FailureView, FileMetadataView, ProviderErrorText};
use crate::repository::{
    batch_entries, batch_published, commit_failure_kind, deleted_paths, github_entry, guard_text,
    guards_text, in_batch, is_attempted, is_published, is_repository_operation,
    law_ambiguous_commit_is_unknown, law_repository_stays_sound, lemma_attempt_accepted,
    operation_path, operation_valid, repository_action, repository_run_fits, repository_sound,
    repository_started, repository_step, repository_validated, same_but_files, same_file,
    written_paths, RepositoryActionView, RepositoryErrorView, RepositoryEventView, RepositoryRun,
    RepositoryStageView,
};
use crate::text::is_sha256_text;
use vstd::prelude::*;

verus! {

/// The branch may have moved after a failure of the network or of an integrity check,
/// and after no other.
pub proof fn law_uncertain_commit_failures(error: ProviderErrorText)
    ensures
        commit_failure_kind(error) == FailureKind::Ambiguous <==> error is Network
            || error is Integrity,
        commit_failure_kind(error) == FailureKind::NoEffect <==> {
            ||| error is Io
            ||| error is InvalidKey
            ||| error is InvalidPath
            ||| error is AuthenticationRequired
            ||| error is AuthenticationFailed
            ||| error is PermissionDenied
            ||| error is NotFound
            ||| error is Conflict
            ||| error is AlreadyExists
            ||| error is Unsupported
            ||| error is Other
        },
{
}

/// The path that an operation writes or deletes.
pub open spec fn path_of(operation: OperationView) -> Seq<char> {
    match operation {
        OperationView::WriteRepository(file) => file.path,
        OperationView::DeleteRepository(path) => path,
        _ => Seq::empty(),
    }
}

/// Whether an operation contradicts the operations before it or the ledger: its path
/// was named before, or is recorded and not confirmed, or is to be deleted and not
/// recorded.
pub open spec fn contradicts(batch: Seq<OperationView>, ledger: LedgerView, i: int) -> bool {
    let path = path_of(batch[i]);
    ||| exists|j: int| 0 <= j < i && path_of(#[trigger] batch[j]) == path
    ||| ledger.github_inventory.dom().contains(path) && ledger.github_inventory[path].status
        != OperationState::Confirmed
    ||| batch[i] is DeleteRepository && !ledger.github_inventory.dom().contains(path)
}

proof fn lemma_contradiction(batch: Seq<OperationView>, ledger: LedgerView, i: int)
    requires
        0 <= i < batch.len(),
    ensures
        guard_text(batch, ledger, i) is Some <==> contradicts(batch, ledger, i),
{
    assert forall|j: int| 0 <= j < batch.len() implies operation_path(#[trigger] batch[j])
        == path_of(batch[j]) by {}
    let path = path_of(batch[i]);
    if exists|j: int| 0 <= j < i && #[trigger] operation_path(batch[j]) == path {
        let j = choose|j: int| 0 <= j < i && #[trigger] operation_path(batch[j]) == path;
        assert(path_of(batch[j]) == path);
    }
    if exists|j: int| 0 <= j < i && path_of(#[trigger] batch[j]) == path {
        let j = choose|j: int| 0 <= j < i && path_of(#[trigger] batch[j]) == path;
        assert(operation_path(batch[j]) == path);
    }
}

proof fn lemma_contradictions(batch: Seq<OperationView>, ledger: LedgerView, i: int)
    requires
        0 <= i <= batch.len(),
    ensures
        guards_text(batch, ledger, i) is Some <==> exists|j: int|
            i <= j < batch.len() && #[trigger] contradicts(batch, ledger, j),
    decreases batch.len() - i,
{
    if i < batch.len() {
        lemma_contradiction(batch, ledger, i);
        lemma_contradictions(batch, ledger, i + 1);
        if contradicts(batch, ledger, i) {
            assert(exists|j: int| i <= j < batch.len() && #[trigger] contradicts(batch, ledger, j));
        }
    }
}

/// A plan without operations on the repository ends at once and changes nothing. One
/// that holds a contradiction is refused, and the ledger stays; any other is not
/// refused for one.
pub proof fn law_batch_is_taken_up_iff(
    operations: Seq<OperationView>,
    files: Seq<(Seq<char>, Seq<u8>)>,
    ledger: LedgerView,
)
    ensures
        ({
            let run = repository_started(operations, files, ledger);
            let batch = run.operations;
            &&& batch == operations.filter(
                |o: OperationView| o is WriteRepository || o is DeleteRepository,
            )
            &&& run.ledger == ledger
            &&& run.revision is None
            &&& batch.len() == 0 <==> run.stage == RepositoryStageView::Done(None)
            &&& (run.stage matches RepositoryStageView::Done(
                Some(RepositoryErrorView::InconsistentPlan(_)),
            )) <==> (exists|i: int|
                0 <= i < batch.len() && #[trigger] contradicts(batch, ledger, i))
        }),
{
    let kept = operations.filter(|o: OperationView| is_repository_operation(o));
    assert((|o: OperationView| is_repository_operation(o)) =~= (|o: OperationView|
        o is WriteRepository || o is DeleteRepository));
    lemma_contradictions(kept, ledger, 0);
    let first = RepositoryRun {
        operations: kept,
        files,
        previous: batch_entries(kept, ledger),
        index: 0,
        ledger,
        base: Seq::empty(),
        revision: None,
        stage: RepositoryStageView::Done(None),
    };
    law_writes_are_validated_in_order(first);
}

/// Whether the bundle holds the planned bytes of a file: a file at its path with the
/// planned digest and size.
pub open spec fn is_in_bundle(files: Seq<(Seq<char>, Seq<u8>)>, file: DesiredFileView) -> bool {
    &&& content_at(files, file.path) matches Some(content)
    &&& hex_sha256(content) == file.sha256
    &&& content.len() == file.size_bytes
}

/// Whether an operation needs no look at a publication file: a deletion, or a write of
/// what the bundle holds.
pub open spec fn is_ready(run: RepositoryRun, i: int) -> bool {
    run.operations[i] matches OperationView::WriteRepository(file) ==> file.source is BundleMember
        && is_in_bundle(run.files, file)
}

/// The writes are validated in their order: a write that the bundle should hold and
/// does not hold ends the run, a write of a publication file has that file looked at,
/// and the repository is turned to once all of them were found valid. The ledger stays.
pub proof fn law_writes_are_validated_in_order(run: RepositoryRun)
    requires
        0 <= run.index <= run.operations.len(),
    ensures
        ({
            let after = repository_validated(run);
            &&& after.ledger == run.ledger
            &&& after.operations == run.operations
            &&& after.revision == run.revision
            &&& run.index <= after.index <= run.operations.len()
            &&& forall|i: int| run.index <= i < after.index ==> #[trigger] is_ready(run, i)
            &&& match after.stage {
                RepositoryStageView::Ensure => after.index == run.operations.len(),
                RepositoryStageView::Examine => {
                    &&& after.index < run.operations.len()
                    &&& run.operations[after.index] matches OperationView::WriteRepository(file)
                    &&& file.source matches SourceView::PublicationFile(path)
                    &&& repository_action(after) == RepositoryActionView::Examine(path)
                },
                RepositoryStageView::Done(
                    Some(RepositoryErrorView::LocalValidation(path, _)),
                ) => {
                    &&& after.index < run.operations.len()
                    &&& run.operations[after.index] matches OperationView::WriteRepository(file)
                    &&& file.source is BundleMember
                    &&& !is_in_bundle(run.files, file)
                    &&& path == file.path
                },
                _ => false,
            }
        }),
    decreases run.operations.len() - run.index,
{
    if run.index < run.operations.len() {
        let next = RepositoryRun { index: run.index + 1, ..run };
        law_writes_are_validated_in_order(next);
        let after = repository_validated(run);
        if after == repository_validated(next) {
            assert forall|i: int| run.index <= i < after.index implies #[trigger] is_ready(
                run,
                i,
            ) by {
                if i > run.index {
                    assert(is_ready(next, i));
                }
            }
        }
    }
}

/// A publication file is accepted exactly where it was read whole with the planned size
/// and digest; the validation then goes on behind it. Any other ends the run, and the
/// ledger stays.
pub proof fn law_examined_file_is_accepted_iff(
    run: RepositoryRun,
    file: DesiredFileView,
    path: Seq<char>,
    seen: FileObservationView,
)
    requires
        0 <= run.index < run.operations.len(),
        run.operations[run.index] == OperationView::WriteRepository(file),
        file.source == SourceView::PublicationFile(path),
        repository_action(run) is Examine,
    ensures
        ({
            let after = repository_step(run, RepositoryEventView::Examined(seen));
            if seen == (FileObservationView::Read {
                declared_size: file.size_bytes,
                bytes_read: file.size_bytes,
                sha256: file.sha256,
            }) {
                after == repository_validated((RepositoryRun { index: run.index + 1, ..run }))
            } else {
                &&& after.ledger == run.ledger
                &&& after.stage matches RepositoryStageView::Done(
                    Some(RepositoryErrorView::LocalValidation(at, _)),
                )
                &&& at == file.path
            }
        }),
{
    law_source_is_accepted_iff(
        SourceRole::PublicationFile,
        path,
        seen,
        file.sha256,
        file.size_bytes,
    );
}

/// Whether the ledger has every file of a batch on a revision and in a state, with the
/// digest that is to be written or, for a deletion, the one that was recorded before.
pub open spec fn is_on(
    ledger: LedgerView,
    start: LedgerView,
    batch: Seq<OperationView>,
    revision: Seq<char>,
    status: OperationState,
) -> bool {
    forall|i: int|
        0 <= i < batch.len() ==> {
            let path = path_of(#[trigger] batch[i]);
            &&& ledger.github_inventory.dom().contains(path)
            &&& ledger.github_inventory[path].revision == revision
            &&& ledger.github_inventory[path].status == status
            &&& match batch[i] {
                OperationView::WriteRepository(file) => ledger.github_inventory[path].sha256
                    == file.sha256,
                _ => ledger.github_inventory[path].sha256 == start.github_inventory[path].sha256,
            }
        }
}

/// Whether two ledgers say the same of every file that a batch does not name, and of
/// everything that is no file.
pub open spec fn same_outside(a: LedgerView, b: LedgerView, batch: Seq<OperationView>) -> bool {
    &&& a.r2_inventory == b.r2_inventory
    &&& a.vercel == b.vercel
    &&& same_publication(a, b)
    &&& forall|path: Seq<char>|
        (forall|i: int| 0 <= i < batch.len() ==> path_of(#[trigger] batch[i]) != path) ==> (
        #[trigger] a.github_inventory.dom().contains(path) <==> b.github_inventory.dom().contains(
            path,
        )) && (a.github_inventory.dom().contains(path) ==> a.github_inventory[path]
            == b.github_inventory[path])
}

proof fn lemma_on(
    ledger: LedgerView,
    start: LedgerView,
    run: RepositoryRun,
    revision: Seq<char>,
    status: OperationState,
)
    requires
        repository_run_fits(run),
        !(run.stage is Done),
        run.previous == batch_entries(run.operations, start),
        forall|j: int|
            0 <= j < run.operations.len() ==> is_attempted(
                ledger,
                #[trigger] run.operations[j],
                run.previous[j],
                revision,
                status,
            ),
    ensures
        is_on(ledger, start, run.operations, revision, status),
{
    let batch = run.operations;
    assert forall|i: int| 0 <= i < batch.len() implies {
        let path = path_of(#[trigger] batch[i]);
        &&& ledger.github_inventory.dom().contains(path)
        &&& ledger.github_inventory[path].revision == revision
        &&& ledger.github_inventory[path].status == status
        &&& match batch[i] {
            OperationView::WriteRepository(file) => ledger.github_inventory[path].sha256
                == file.sha256,
            _ => ledger.github_inventory[path].sha256 == start.github_inventory[path].sha256,
        }
    } by {
        assert(is_attempted(ledger, run.operations[i], run.previous[i], revision, status));
        assert(run.previous[i] == github_entry(start, operation_path(batch[i])));
    }
}

proof fn lemma_outside(ledger: LedgerView, start: LedgerView, batch: Seq<OperationView>)
    requires
        same_but_files(ledger, start),
        forall|path: Seq<char>|
            !in_batch(batch, 0, path) ==> #[trigger] same_file(ledger, start, path),
    ensures
        same_outside(ledger, start, batch),
{
    assert forall|path: Seq<char>|
        (forall|i: int| 0 <= i < batch.len() ==> path_of(#[trigger] batch[i]) != path) implies (
    #[trigger] ledger.github_inventory.dom().contains(path)
        <==> start.github_inventory.dom().contains(path)) && (
    ledger.github_inventory.dom().contains(path) ==> ledger.github_inventory[path]
        == start.github_inventory[path]) by {
        if in_batch(batch, 0, path) {
            let j = choose|j: int|
                0 <= j < batch.len() && #[trigger] operation_path(batch[j]) == path;
            assert(path_of(batch[j]) == path);
        }
        assert(same_file(ledger, start, path));
    }
}

/// Once the base revision is known, every file of the batch is recorded as pending on
/// it, and the run asks for the ledger to be written; once that is done it asks for
/// the first operation.
pub proof fn law_batch_is_marked_pending(start: LedgerView, run: RepositoryRun, base: Seq<char>)
    requires
        ledger_valid(start),
        repository_sound(start, run),
        run.stage is Probe,
        forall|i: int| 0 <= i < run.operations.len() ==> operation_valid(#[trigger] run.operations[i]),
        says_something(base),
    ensures
        ({
            let after = repository_step(run, RepositoryEventView::Committed(Ok(base)));
            &&& repository_action(after) == RepositoryActionView::Persist(after.ledger)
            &&& after.base == base
            &&& is_on(after.ledger, start, run.operations, base, OperationState::Pending)
            &&& same_outside(after.ledger, start, run.operations)
            &&& repository_action(repository_step(after, RepositoryEventView::Persisted))
                == match run.operations[0] {
                OperationView::WriteRepository(file) => RepositoryActionView::Write(file),
                _ => RepositoryActionView::Delete(path_of(run.operations[0])),
            }
        }),
{
    let event = RepositoryEventView::Committed(Ok(base));
    let after = repository_step(run, event);
    law_repository_stays_sound(start, run, event);
    assert forall|j: int| 0 <= j < run.operations.len() implies operation_valid(
        #[trigger] run.operations[j],
    ) && (run.operations[j] is DeleteRepository ==> run.previous[j] is Some && is_sha256_text(
        run.previous[j]->0.sha256,
    )) by {
        let path = operation_path(run.operations[j]);
        assert(run.previous[j] == github_entry(start, path));
        if run.operations[j] is DeleteRepository {
            assert(start.github_inventory.dom().contains(path));
            assert(github_entry_error(path, start.github_inventory[path]) is None);
        }
    }
    lemma_attempt_accepted(start, run.operations, run.previous, base, OperationState::Pending, 0);
    lemma_on(after.ledger, start, after, base, OperationState::Pending);
    lemma_outside(after.ledger, start, run.operations);
    assert(is_repository_operation(run.operations[0]));
}

/// A file that was staged as planned is followed by the next operation, or by the
/// commit after the last. A write whose answer differs from the plan, and an operation
/// that failed, end the batch.
pub proof fn law_staged_operation_is_followed(
    run: RepositoryRun,
    outcome: Result<FileMetadataView, FailureView>,
    deletion: Result<(), FailureView>,
)
    requires
        0 <= run.index < run.operations.len(),
        run.stage is Stage,
    ensures
        ({
            let after = match run.operations[run.index] {
                OperationView::WriteRepository(_) => repository_step(
                    run,
                    RepositoryEventView::Written(outcome),
                ),
                _ => repository_step(run, RepositoryEventView::Deleted(deletion)),
            };
            let staged = match run.operations[run.index] {
                OperationView::WriteRepository(file) => {
                    &&& outcome matches Ok(answer)
                    &&& answer.path == file.path
                    &&& answer.size_bytes == file.size_bytes
                    &&& answer.sha256 == file.sha256
                },
                OperationView::DeleteRepository(_) => deletion is Ok,
                _ => false,
            };
            &&& staged ==> {
                &&& after.ledger == run.ledger
                &&& after.index == run.index + 1
                &&& after.operations == run.operations
                &&& if run.index + 1 < run.operations.len() {
                    after.stage is Stage
                } else {
                    repository_action(after) == RepositoryActionView::Commit(
                        "photo-publisher publish "@ + run.ledger.local_generation,
                    )
                }
            }
            &&& !staged && is_repository_operation(run.operations[run.index]) ==> (
            match after.stage {
                RepositoryStageView::PersistOutcome(Some(RepositoryErrorView::Rejected(_))) => true,
                RepositoryStageView::Done(Some(RepositoryErrorView::Ledger(_))) => true,
                _ => false,
            })
        }),
{
}

/// A commit that succeeded leaves every written file confirmed on its revision with the
/// written digest, and no deleted file; it is reported once this is written.
pub proof fn law_committed_batch_is_confirmed(
    start: LedgerView,
    run: RepositoryRun,
    revision: Seq<char>,
)
    requires
        repository_sound(start, run),
        run.stage is Commit,
    ensures
        ({
            let after = repository_step(run, RepositoryEventView::Committed(Ok(revision)));
            let written = repository_step(after, RepositoryEventView::Persisted);
            match after.stage {
                RepositoryStageView::PersistOutcome(None) => {
                    &&& forall|i: int|
                        0 <= i < run.operations.len() ==> {
                            let path = path_of(#[trigger] run.operations[i]);
                            match run.operations[i] {
                                OperationView::WriteRepository(file) => {
                                    &&& after.ledger.github_inventory.dom().contains(path)
                                    &&& after.ledger.github_inventory[path].sha256 == file.sha256
                                    &&& after.ledger.github_inventory[path].revision == revision
                                    &&& after.ledger.github_inventory[path].status
                                        == OperationState::Confirmed
                                },
                                _ => !after.ledger.github_inventory.dom().contains(path),
                            }
                        }
                    &&& same_outside(after.ledger, start, run.operations)
                    &&& written.stage == RepositoryStageView::Done(None)
                    &&& written.ledger == after.ledger
                    &&& written.revision == Some(revision)
                },
                RepositoryStageView::Done(
                    Some(RepositoryErrorView::Ledger(LedgerFailureView::Refused(_))),
                ) => true,
                _ => false,
            }
        }),
{
    let event = RepositoryEventView::Committed(Ok(revision));
    let after = repository_step(run, event);
    law_repository_stays_sound(start, run, event);
    if after.stage == RepositoryStageView::PersistOutcome(None) {
        assert(batch_published(start, after));
        assert(after.operations == run.operations);
        assert forall|i: int| 0 <= i < run.operations.len() implies {
            let path = path_of(#[trigger] run.operations[i]);
            match run.operations[i] {
                OperationView::WriteRepository(file) => {
                    &&& after.ledger.github_inventory.dom().contains(path)
                    &&& after.ledger.github_inventory[path].sha256 == file.sha256
                    &&& after.ledger.github_inventory[path].revision == revision
                    &&& after.ledger.github_inventory[path].status == OperationState::Confirmed
                },
                _ => !after.ledger.github_inventory.dom().contains(path),
            }
        } by {
            assert(is_published(after.ledger, after.operations[i], revision));
        }
        lemma_outside(after.ledger, start, run.operations);
    }
}

/// A commit after which the branch may have moved leaves every file of the batch
/// unknown on the base revision.
pub proof fn law_uncertain_commit_is_unknown(
    start: LedgerView,
    run: RepositoryRun,
    failure: FailureView,
)
    requires
        repository_sound(start, run),
        run.stage is Commit,
        failure.error is Network || failure.error is Integrity,
    ensures
        ({
            let after = repository_step(run, RepositoryEventView::Committed(Err(failure)));
            match after.stage {
                RepositoryStageView::PersistOutcome(Some(RepositoryErrorView::Ambiguous(_))) =>
                    is_on(
                    after.ledger,
                    start,
                    run.operations,
                    run.base,
                    OperationState::Unknown,
                ),
                RepositoryStageView::Done(
                    Some(RepositoryErrorView::Ledger(LedgerFailureView::Refused(_))),
                ) => true,
                _ => false,
            }
        }),
{
    let after = repository_step(run, RepositoryEventView::Committed(Err(failure)));
    if after.stage is PersistOutcome {
        law_ambiguous_commit_is_unknown(start, run, failure);
        assert forall|j: int| 0 <= j < run.operations.len() implies is_attempted(
            after.ledger,
            #[trigger] run.operations[j],
            run.previous[j],
            run.base,
            OperationState::Unknown,
        ) by {
            assert(run.previous[j] == github_entry(start, operation_path(run.operations[j])));
        }
        lemma_on(after.ledger, start, run, run.base, OperationState::Unknown);
    }
}

/// A failure before the batch is in flight ends the run, and the ledger stays.
pub proof fn law_unavailable_repository_changes_nothing(run: RepositoryRun, failure: FailureView)
    requires
        run.stage is Ensure || run.stage is Probe,
    ensures
        ({
            let after = if run.stage is Ensure {
                repository_step(run, RepositoryEventView::Ensured(Err(failure)))
            } else {
                repository_step(run, RepositoryEventView::Committed(Err(failure)))
            };
            &&& after.ledger == run.ledger
            &&& after.stage matches RepositoryStageView::Done(
                Some(RepositoryErrorView::Initialization(_)),
            )
        }),
        run.stage is Ensure ==> repository_action(
            repository_step(run, RepositoryEventView::Ensured(Ok(()))),
        ) == RepositoryActionView::Commit(
            "photo-publisher publish "@ + run.ledger.local_generation,
        ),
{
}

/// A run whose ledger could not be written ends with the ledger that was found on
/// disk, or with its own where none could be read.
pub proof fn law_unwritten_repository_ledger(
    run: RepositoryRun,
    durable: Option<LedgerView>,
    message: Seq<char>,
)
    requires
        repository_action(run) is Persist,
    ensures
        ({
            let after = repository_step(run, RepositoryEventView::NotPersisted(durable, message));
            &&& after.ledger == match durable {
                Some(found) => found,
                None => run.ledger,
            }
            &&& after.stage == RepositoryStageView::Done(
                Some(RepositoryErrorView::Ledger(LedgerFailureView::NotPersisted(message))),
            )
        }),
{
}

/// A run reports the paths of its writes and of its deletions, in their order, and no
/// others.
pub proof fn law_repository_report(operations: Seq<OperationView>, operation: OperationView)
    ensures
        written_paths(Seq::empty()) == Seq::<Seq<char>>::empty(),
        deleted_paths(Seq::empty()) == Seq::<Seq<char>>::empty(),
        written_paths(operations.push(operation)) == match operation {
            OperationView::WriteRepository(file) => written_paths(operations).push(file.path),
            _ => written_paths(operations),
        },
        deleted_paths(operations.push(operation)) == match operation {
            OperationView::DeleteRepository(path) => deleted_paths(operations).push(path),
            _ => deleted_paths(operations),
        },
{
    reveal(Seq::filter_map);
    assert(operations.push(operation).drop_last() =~= operations);
}

/// A run that waits for something is not moved by anything else.
pub proof fn law_repository_waits(run: RepositoryRun, event: RepositoryEventView)
    requires
        match run.stage {
            RepositoryStageView::Examine => !(event is Examined),
            RepositoryStageView::Ensure => !(event is Ensured),
            RepositoryStageView::Probe => !(event is Committed),
            RepositoryStageView::Stage => match run.operations[run.index] {
                OperationView::WriteRepository(_) => !(event is Written),
                OperationView::DeleteRepository(_) => !(event is Deleted),
                _ => true,
            },
            RepositoryStageView::Commit => !(event is Committed),
            RepositoryStageView::Done(_) => true,
            _ => !(event is Persisted) && !(event is NotPersisted),
        },
    ensures
        repository_step(run, event) == run,
{
}

} // verus!
