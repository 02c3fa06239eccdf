//! What the messages of errors tell.

use crate::coordinator::{coordination_error_text, CoordinationErrorView};
use crate::executor::{
    storage_error_text, storage_step, StorageErrorView, StorageEventView, StorageRun,
    StorageStageView,
};
use crate::file_source::{
    caused_text, declared_size, found_digest, role_text, seen_cause, source_problem_text,
    FileObservationView, SourceRole,
};
use crate::hosting::{
    hosting_error_text, hosting_step, HostingErrorView, HostingEventView, HostingRun,
    HostingStageView,
};
use crate::ledger::{ledger_error_text, ledger_failure_text, LedgerFailureView};
use crate::provider::FailureView;
use crate::repository::{
    repository_error_text, repository_step, RepositoryErrorView, RepositoryEventView, RepositoryRun,
    RepositoryStageView,
};
use crate::text::decimal_text;
use vstd::prelude::*;

verus! {

/// Whether a text tells another: it stands in it somewhere.
pub open spec fn tells(text: Seq<char>, part: Seq<char>) -> bool {
    exists|start: Seq<char>, end: Seq<char>| text == #[trigger] (start + part + end)
}

/// Whether a text ends with another.
pub open spec fn ends_with_text(text: Seq<char>, part: Seq<char>) -> bool {
    exists|start: Seq<char>| text == #[trigger] (start + part)
}

proof fn lemma_tells(start: Seq<char>, part: Seq<char>, end: Seq<char>)
    ensures
        tells(start + part + end, part),
{
}

proof fn lemma_ends(start: Seq<char>, part: Seq<char>)
    ensures
        ends_with_text(start + part, part),
        tells(start + part, part),
{
    assert(start + part =~= start + part + Seq::<char>::empty());
}

/// The message of a storage error is the key and the reason where it is about an
/// object, tells the reason where it is about the plan, the directory or the ledger,
/// and how many requirements are open where there are any.
pub proof fn law_storage_message(e: StorageErrorView)
    ensures
        ({
            let text = storage_error_text(e);
            match e {
                StorageErrorView::ReconciliationRequired(requirements) => tells(
                    text,
                    decimal_text(requirements.len()),
                ),
                StorageErrorView::InvalidRoot(reason) => ends_with_text(text, reason),
                StorageErrorView::InconsistentPlan(reason) => ends_with_text(text, reason),
                StorageErrorView::LocalValidation(key, reason)
                | StorageErrorView::Rejected(key, reason)
                | StorageErrorView::Ambiguous(key, reason)
                | StorageErrorView::InconsistentUpload(key, reason) => text == key + ": "@
                    + reason,
                StorageErrorView::Ledger(LedgerFailureView::NotPersisted(reason)) =>
                    ends_with_text(text, reason),
                StorageErrorView::Ledger(LedgerFailureView::Refused(cause)) => ends_with_text(
                    text,
                    ledger_error_text(cause),
                ),
            }
        }),
{
    let text = storage_error_text(e);
    match e {
        StorageErrorView::ReconciliationRequired(requirements) => {
            lemma_tells(
                "storage execution requires reconciliation first ("@,
                decimal_text(requirements.len()),
                " requirement(s))"@,
            );
        },
        StorageErrorView::InvalidRoot(reason) => {
            lemma_ends("failed to resolve the publication output directory: "@, reason);
        },
        StorageErrorView::InconsistentPlan(reason) => {
            lemma_ends("inconsistent plan: "@, reason);
        },
        StorageErrorView::Ledger(failure) => {
            lemma_ledger_failure(failure);
        },
        _ => {},
    }
}

proof fn lemma_ledger_failure(failure: LedgerFailureView)
    ensures
        match failure {
            LedgerFailureView::NotPersisted(reason) => ends_with_text(
                ledger_failure_text(failure),
                reason,
            ),
            LedgerFailureView::Refused(cause) => ends_with_text(
                ledger_failure_text(failure),
                ledger_error_text(cause),
            ),
        },
{
    let start = "failed to persist the integration ledger: "@;
    match failure {
        LedgerFailureView::NotPersisted(reason) => lemma_ends(start, reason),
        LedgerFailureView::Refused(cause) => lemma_ends(start, ledger_error_text(cause)),
    }
}

/// The message of a repository error is the path and the reason where it is about a
/// file, and tells the reason else.
pub proof fn law_repository_message(e: RepositoryErrorView)
    ensures
        ({
            let text = repository_error_text(e);
            match e {
                RepositoryErrorView::ReconciliationRequired(requirements) => tells(
                    text,
                    decimal_text(requirements.len()),
                ),
                RepositoryErrorView::InvalidRoot(reason) => ends_with_text(text, reason),
                RepositoryErrorView::InconsistentPlan(reason) => ends_with_text(text, reason),
                RepositoryErrorView::LocalValidation(path, reason) => text == path + ": "@
                    + reason,
                RepositoryErrorView::Initialization(reason)
                | RepositoryErrorView::Rejected(reason)
                | RepositoryErrorView::Ambiguous(reason) => text == reason,
                RepositoryErrorView::Ledger(LedgerFailureView::NotPersisted(reason)) =>
                    ends_with_text(text, reason),
                RepositoryErrorView::Ledger(LedgerFailureView::Refused(cause)) => ends_with_text(
                    text,
                    ledger_error_text(cause),
                ),
            }
        }),
{
    match e {
        RepositoryErrorView::ReconciliationRequired(requirements) => {
            lemma_tells(
                "repository execution requires reconciliation first ("@,
                decimal_text(requirements.len()),
                " requirement(s))"@,
            );
        },
        RepositoryErrorView::InvalidRoot(reason) => {
            lemma_ends("failed to resolve the publication output directory: "@, reason);
        },
        RepositoryErrorView::InconsistentPlan(reason) => {
            lemma_ends("inconsistent plan: "@, reason);
        },
        RepositoryErrorView::Ledger(failure) => {
            lemma_ledger_failure(failure);
        },
        _ => {},
    }
}

/// The message of a hosting error tells its reason.
pub proof fn law_hosting_message(e: HostingErrorView)
    ensures
        ({
            let text = hosting_error_text(e);
            match e {
                HostingErrorView::ReconciliationRequired(requirements) => tells(
                    text,
                    decimal_text(requirements.len()),
                ),
                HostingErrorView::InconsistentPlan(reason) => ends_with_text(text, reason),
                HostingErrorView::LocalValidation(reason)
                | HostingErrorView::Rejected(reason)
                | HostingErrorView::Ambiguous(reason) => text == reason,
                HostingErrorView::Ledger(LedgerFailureView::NotPersisted(reason)) =>
                    ends_with_text(text, reason),
                HostingErrorView::Ledger(LedgerFailureView::Refused(cause)) => ends_with_text(
                    text,
                    ledger_error_text(cause),
                ),
            }
        }),
{
    match e {
        HostingErrorView::ReconciliationRequired(requirements) => {
            lemma_tells(
                "hosting execution requires reconciliation first ("@,
                decimal_text(requirements.len()),
                " requirement(s))"@,
            );
        },
        HostingErrorView::InconsistentPlan(reason) => {
            lemma_ends("inconsistent plan: "@, reason);
        },
        HostingErrorView::Ledger(failure) => {
            lemma_ledger_failure(failure);
        },
        _ => {},
    }
}

/// The message of a publication tells why it did not start or go on, and ends with the
/// message of the phase that failed.
pub proof fn law_coordination_message(e: CoordinationErrorView)
    ensures
        ({
            let text = coordination_error_text(e);
            match e {
                CoordinationErrorView::Blocked(requirements) => tells(
                    text,
                    decimal_text(requirements.len()),
                ),
                CoordinationErrorView::UnsafeLedger(reason)
                | CoordinationErrorView::ProvenanceMismatch(reason) => ends_with_text(
                    text,
                    reason,
                ),
                CoordinationErrorView::Ledger(LedgerFailureView::NotPersisted(reason)) =>
                    ends_with_text(text, reason),
                CoordinationErrorView::Ledger(LedgerFailureView::Refused(cause)) =>
                    ends_with_text(text, ledger_error_text(cause)),
                CoordinationErrorView::Storage(failed) => ends_with_text(
                    text,
                    storage_error_text(failed),
                ),
                CoordinationErrorView::Repository(failed) => ends_with_text(
                    text,
                    repository_error_text(failed),
                ),
                CoordinationErrorView::Hosting(failed) => ends_with_text(
                    text,
                    hosting_error_text(failed),
                ),
            }
        }),
{
    match e {
        CoordinationErrorView::Blocked(requirements) => {
            lemma_tells(
                "publication requires reconciliation first ("@,
                decimal_text(requirements.len()),
                " requirement(s))"@,
            );
        },
        CoordinationErrorView::UnsafeLedger(reason) => {
            lemma_ends("unsafe ledger state: "@, reason);
        },
        CoordinationErrorView::ProvenanceMismatch(reason) => {
            lemma_ends("publication provenance mismatch: "@, reason);
        },
        CoordinationErrorView::Ledger(failure) => {
            lemma_ledger_failure(failure);
        },
        CoordinationErrorView::Storage(failed) => {
            lemma_ends("storage execution failed: "@, storage_error_text(failed));
        },
        CoordinationErrorView::Repository(failed) => {
            lemma_ends("repository execution failed: "@, repository_error_text(failed));
        },
        CoordinationErrorView::Hosting(failed) => {
            lemma_ends("hosting execution failed: "@, hosting_error_text(failed));
        },
    }
}

/// What a provider said of a failed upload or deletion is told in the error, and so is
/// what it said of a failed commit or deployment.
pub proof fn law_provider_failure_is_told(
    storage: StorageRun,
    repository: RepositoryRun,
    hosting: HostingRun,
    failure: FailureView,
)
    requires
        storage.stage is Remote,
        repository.stage is Commit,
        hosting.stage is Publish,
    ensures
        storage_step(storage, StorageEventView::Stored(Err(failure))).stage
            matches StorageStageView::PersistOutcome(
            Some(StorageErrorView::Rejected(_, text)),
        ) ==> ends_with_text(text, failure.description),
        storage_step(storage, StorageEventView::Stored(Err(failure))).stage
            matches StorageStageView::PersistOutcome(
            Some(StorageErrorView::Ambiguous(_, text)),
        ) ==> ends_with_text(text, failure.description),
        storage_step(storage, StorageEventView::Deleted(Err(failure))).stage
            matches StorageStageView::PersistOutcome(
            Some(StorageErrorView::Rejected(_, text)),
        ) ==> ends_with_text(text, failure.description),
        storage_step(storage, StorageEventView::Deleted(Err(failure))).stage
            matches StorageStageView::PersistOutcome(
            Some(StorageErrorView::Ambiguous(_, text)),
        ) ==> ends_with_text(text, failure.description),
        repository_step(repository, RepositoryEventView::Committed(Err(failure))).stage
            matches RepositoryStageView::PersistOutcome(
            Some(RepositoryErrorView::Rejected(text)),
        ) ==> ends_with_text(text, failure.description),
        repository_step(repository, RepositoryEventView::Committed(Err(failure))).stage
            matches RepositoryStageView::PersistOutcome(
            Some(RepositoryErrorView::Ambiguous(text)),
        ) ==> ends_with_text(text, failure.description),
        hosting_step(hosting, HostingEventView::Published(Err(failure))).stage
            matches HostingStageView::PersistOutcome(
            Some(HostingErrorView::Rejected(text)),
        ) ==> ends_with_text(text, failure.description),
        hosting_step(hosting, HostingEventView::Published(Err(failure))).stage
            matches HostingStageView::PersistOutcome(
            Some(HostingErrorView::Ambiguous(text)),
        ) ==> ends_with_text(text, failure.description),
{
    let said = failure.description;
    lemma_ends("storage PUT was rejected without a remote effect: "@, said);
    lemma_ends("storage PUT outcome cannot be determined: "@, said);
    lemma_ends("storage DELETE was rejected without a remote effect: "@, said);
    lemma_ends("storage DELETE outcome cannot be determined: "@, said);
    lemma_ends("commit was rejected and the ref was not updated: "@, said);
    lemma_ends(
        "commit outcome cannot be determined; the ref may have been updated: "@,
        said,
    );
    lemma_ends(
        "hosting publication was rejected before any deployment was created: "@,
        said,
    );
    lemma_ends("deployment outcome cannot be determined: "@, said);
}

/// What is wrong with a file tells which file it is, and what the system said where it
/// said something.
pub proof fn law_source_problem_names_the_file(
    role: SourceRole,
    source: Seq<char>,
    seen: FileObservationView,
    sha256: Seq<char>,
    size_bytes: u64,
)
    requires
        source_problem_text(role, source, seen, sha256, size_bytes) is Some,
    ensures
        ({
            let text = source_problem_text(role, source, seen, sha256, size_bytes)->0;
            &&& tells(text, source)
            &&& match seen {
                FileObservationView::Missing { cause } => tells(text, cause),
                FileObservationView::Unresolvable { cause } => tells(text, cause),
                FileObservationView::Unopened { declared_size, cause } => declared_size
                    == size_bytes ==> tells(text, cause),
                FileObservationView::Unhashed { declared_size, cause } => declared_size
                    == size_bytes ==> tells(text, cause),
                _ => true,
            }
        }),
{
    let noun = role_text(role);
    let cause = seen_cause(seen);
    lemma_caused(role, noun + " does not exist: "@, source, cause);
    lemma_caused(role, "failed to resolve "@ + noun + ": "@, source, cause);
    lemma_caused(role, "failed to open "@ + noun + ": "@, source, cause);
    lemma_caused(role, "failed to hash "@ + noun + ": "@, source, cause);
    lemma_caused(role, "failed to rewind "@ + noun + ": "@, source, cause);
    lemma_ends(noun + " is not a regular file: "@, source);
    lemma_ends(noun + " escapes the publication root: "@, source);
    lemma_ends(noun + " changed while it was hashed: "@, source);
    lemma_ends(
        noun + " size "@ + decimal_text(declared_size(seen) as nat)
            + " does not match the desired "@ + decimal_text(size_bytes as nat) + " bytes: "@,
        source,
    );
    lemma_ends(
        noun + " SHA-256 "@ + found_digest(seen) + " does not match the desired "@ + sha256 + ": "@,
        source,
    );
}

proof fn lemma_caused(role: SourceRole, start: Seq<char>, source: Seq<char>, cause: Seq<char>)
    ensures
        tells(caused_text(role, start + source, cause), source),
        tells(caused_text(role, start + source, cause), cause),
{
    let text = caused_text(role, start + source, cause);
    match role {
        SourceRole::PublicationFile => {
            assert(text =~= start + source + (": "@ + cause));
            lemma_tells(start, source, ": "@ + cause);
            lemma_ends(start + source + ": "@, cause);
        },
        SourceRole::SourceFile => {
            assert(text =~= start + source + (" ("@ + cause + ")"@));
            lemma_tells(start, source, " ("@ + cause + ")"@);
            lemma_tells(start + source + " ("@, cause, ")"@);
        },
    }
}

} // verus!
