//! When the site is deployed, and what the ledger says of it.

use crate::bundle::BundleView;
use crate::hosting::{
    hosting_action, hosting_fingerprints, hosting_started, hosting_step, publish_failure_kind,
    HostingActionView, HostingErrorView, HostingEventView, HostingRun, HostingStageView,
};
use crate::laws::journal::is_digest;
use crate::laws::ledgers::{
    is_given, law_deployment_is_recorded, law_deployment_is_removed, same_publication,
    says_something,
};
use crate::ledger::{ledger_valid, LedgerFailureView, LedgerView, OperationState, VercelView};
use crate::planner::{DesiredView, OperationView};
use crate::provider::{DeploymentView, FailureKind, FailureView, ProviderErrorText};
use vstd::prelude::*;

verus! {

/// No deployment exists after a publication that lacked credentials, was denied,
/// found no project or ran into a conflict; after every other failure one may.
pub proof fn law_uncertain_hosting_failures(error: ProviderErrorText)
    ensures
        publish_failure_kind(error) == FailureKind::NoEffect <==> {
            ||| error is AuthenticationRequired
            ||| error is AuthenticationFailed
            ||| error is PermissionDenied
            ||| error is NotFound
            ||| error is Conflict
        },
        publish_failure_kind(error) == FailureKind::Ambiguous <==> {
            ||| error is Io
            ||| error is InvalidKey
            ||| error is InvalidPath
            ||| error is Network
            ||| error is AlreadyExists
            ||| error is Integrity
            ||| error is Unsupported
            ||| error is Other
        },
{
}

proof fn lemma_no_publication(operations: Seq<OperationView>)
    requires
        forall|j: int| 0 <= j < operations.len() ==> !(#[trigger] operations[j] is PublishHosting),
    ensures
        hosting_fingerprints(operations) == Seq::<Seq<char>>::empty(),
    decreases operations.len(),
{
    reveal(Seq::filter_map);
    if operations.len() > 0 {
        lemma_no_publication(operations.drop_last());
        assert(!(operations.last() is PublishHosting));
    }
}

proof fn lemma_one_publication(operations: Seq<OperationView>, i: int)
    requires
        0 <= i < operations.len(),
        operations[i] is PublishHosting,
        forall|j: int|
            0 <= j < operations.len() && j != i ==> !(#[trigger] operations[j] is PublishHosting),
    ensures
        hosting_fingerprints(operations) == seq![operations[i]->PublishHosting_0],
    decreases operations.len(),
{
    reveal(Seq::filter_map);
    let rest = operations.drop_last();
    if i == operations.len() - 1 {
        lemma_no_publication(rest);
        assert(hosting_fingerprints(operations) =~= seq![operations[i]->PublishHosting_0]);
    } else {
        lemma_one_publication(rest, i);
        assert(!(operations.last() is PublishHosting));
        assert(hosting_fingerprints(operations) =~= seq![operations[i]->PublishHosting_0]);
    }
}

proof fn lemma_some_publication(operations: Seq<OperationView>, i: int)
    requires
        0 <= i < operations.len(),
        operations[i] is PublishHosting,
    ensures
        hosting_fingerprints(operations).len() >= 1,
    decreases operations.len(),
{
    reveal(Seq::filter_map);
    if i < operations.len() - 1 {
        lemma_some_publication(operations.drop_last(), i);
    }
}

proof fn lemma_several_publications(operations: Seq<OperationView>, i: int, j: int)
    requires
        0 <= i < j < operations.len(),
        operations[i] is PublishHosting,
        operations[j] is PublishHosting,
    ensures
        hosting_fingerprints(operations).len() >= 2,
    decreases operations.len(),
{
    reveal(Seq::filter_map);
    let rest = operations.drop_last();
    if j < operations.len() - 1 {
        lemma_several_publications(rest, i, j);
    } else {
        lemma_some_publication(rest, i);
    }
}

/// A plan that publishes a bundle is taken up exactly where the ledger is of the
/// desired configuration and generation, no deployment is unsettled, and the bundle
/// is the planned one: the deployment is recorded as pending without an identity, and
/// the run asks for the ledger to be written. Otherwise the ledger stays as it is and
/// the run ends.
pub proof fn law_publication_is_taken_up_iff(
    operations: Seq<OperationView>,
    i: int,
    desired: DesiredView,
    bundle: BundleView,
    ledger: LedgerView,
)
    requires
        ledger_valid(ledger),
        0 <= i < operations.len(),
        operations[i] matches OperationView::PublishHosting(planned) && is_digest(planned),
        forall|j: int|
            0 <= j < operations.len() && j != i ==> !(#[trigger] operations[j] is PublishHosting),
    ensures
        ({
            let run = hosting_started(operations, desired, bundle, ledger);
            let planned = operations[i]->PublishHosting_0;
            let same = desired.configuration_fingerprint == ledger.configuration_fingerprint
                && desired.local.generation == ledger.local_generation;
            let settled = ledger.vercel matches Some(entry) ==> entry.status
                == OperationState::Confirmed;
            &&& run.fingerprint == planned
            &&& run.previous == ledger.vercel
            &&& run.deployment is None
            &&& if same && settled && bundle.fingerprint == planned {
                &&& hosting_action(run) == HostingActionView::Persist(run.ledger)
                &&& hosting_action(hosting_step(run, HostingEventView::Persisted)) is Publish
                &&& run.ledger.vercel == Some(
                    VercelView {
                        bundle_fingerprint: planned,
                        status: OperationState::Pending,
                        deployment_id: None,
                        url: None,
                    },
                )
                &&& run.ledger.r2_inventory == ledger.r2_inventory
                &&& run.ledger.github_inventory == ledger.github_inventory
                &&& same_publication(run.ledger, ledger)
            } else {
                &&& run.ledger == ledger
                &&& match run.stage {
                    HostingStageView::Done(Some(HostingErrorView::InconsistentPlan(_))) => !same
                        || !settled,
                    HostingStageView::Done(Some(HostingErrorView::LocalValidation(_))) => same
                        && settled && bundle.fingerprint != planned,
                    _ => false,
                }
            }
        }),
{
    lemma_one_publication(operations, i);
    let planned = operations[i]->PublishHosting_0;
    law_deployment_is_recorded(
        ledger,
        VercelView {
            bundle_fingerprint: planned,
            status: OperationState::Pending,
            deployment_id: None,
            url: None,
        },
    );
}

/// A plan that publishes nothing ends at once and changes nothing; one that publishes
/// twice is refused and changes nothing.
pub proof fn law_publications_are_counted(
    operations: Seq<OperationView>,
    desired: DesiredView,
    bundle: BundleView,
    ledger: LedgerView,
)
    ensures
        ({
            let run = hosting_started(operations, desired, bundle, ledger);
            &&& (forall|j: int|
                0 <= j < operations.len() ==> !(#[trigger] operations[j] is PublishHosting)) ==> {
                &&& run.stage == HostingStageView::Done(None)
                &&& run.ledger == ledger
                &&& run.deployment is None
            }
            &&& (exists|i: int, j: int|
                0 <= i < j < operations.len() && #[trigger] operations[i] is PublishHosting
                    && #[trigger] operations[j] is PublishHosting) ==> {
                &&& run.stage matches HostingStageView::Done(
                    Some(HostingErrorView::InconsistentPlan(_)),
                )
                &&& run.ledger == ledger
            }
        }),
{
    if forall|j: int| 0 <= j < operations.len() ==> !(#[trigger] operations[j] is PublishHosting) {
        lemma_no_publication(operations);
    }
    if exists|i: int, j: int|
        0 <= i < j < operations.len() && #[trigger] operations[i] is PublishHosting
            && #[trigger] operations[j] is PublishHosting {
        let (i, j) = choose|i: int, j: int|
            0 <= i < j < operations.len() && #[trigger] operations[i] is PublishHosting
                && #[trigger] operations[j] is PublishHosting;
        lemma_several_publications(operations, i, j);
    }
}

/// A deployment with an id and an address is recorded as confirmed under them, for the
/// planned bundle, and reported once this is written.
pub proof fn law_deployment_is_confirmed(run: HostingRun, deployment: DeploymentView)
    requires
        ledger_valid(run.ledger),
        is_digest(run.fingerprint),
        hosting_action(run) is Publish,
        says_something(deployment.id),
        says_something(deployment.url),
    ensures
        ({
            let after = hosting_step(run, HostingEventView::Published(Ok(deployment)));
            let written = hosting_step(after, HostingEventView::Persisted);
            &&& hosting_action(after) == HostingActionView::Persist(after.ledger)
            &&& after.ledger.vercel == Some(
                VercelView {
                    bundle_fingerprint: run.fingerprint,
                    status: OperationState::Confirmed,
                    deployment_id: Some(deployment.id),
                    url: Some(deployment.url),
                },
            )
            &&& after.ledger.r2_inventory == run.ledger.r2_inventory
            &&& after.ledger.github_inventory == run.ledger.github_inventory
            &&& same_publication(after.ledger, run.ledger)
            &&& written.stage == HostingStageView::Done(None)
            &&& written.ledger == after.ledger
            &&& written.deployment == Some(deployment)
        }),
{
    law_deployment_is_recorded(
        run.ledger,
        VercelView {
            bundle_fingerprint: run.fingerprint,
            status: OperationState::Confirmed,
            deployment_id: Some(deployment.id),
            url: Some(deployment.url),
        },
    );
}

/// A deployment without an id or an address, and a failure after which one may exist,
/// are recorded as unknown, and the run ends with an ambiguity once this is written.
pub proof fn law_uncertain_deployment_is_unknown(
    run: HostingRun,
    outcome: Result<DeploymentView, FailureView>,
)
    requires
        ledger_valid(run.ledger),
        is_digest(run.fingerprint),
        hosting_action(run) is Publish,
        match outcome {
            Ok(deployment) => !says_something(deployment.id) || !says_something(deployment.url),
            Err(failure) => !(failure.error is AuthenticationRequired
                || failure.error is AuthenticationFailed || failure.error is PermissionDenied
                || failure.error is NotFound || failure.error is Conflict),
        },
    ensures
        ({
            let after = hosting_step(run, HostingEventView::Published(outcome));
            &&& hosting_action(after) == HostingActionView::Persist(after.ledger)
            &&& after.ledger.vercel == Some(
                VercelView {
                    bundle_fingerprint: run.fingerprint,
                    status: OperationState::Unknown,
                    deployment_id: None,
                    url: None,
                },
            )
            &&& after.ledger.r2_inventory == run.ledger.r2_inventory
            &&& after.ledger.github_inventory == run.ledger.github_inventory
            &&& same_publication(after.ledger, run.ledger)
            &&& after.deployment == run.deployment
            &&& hosting_step(after, HostingEventView::Persisted).stage
                matches HostingStageView::Done(Some(HostingErrorView::Ambiguous(_)))
        }),
{
    law_deployment_is_recorded(
        run.ledger,
        VercelView {
            bundle_fingerprint: run.fingerprint,
            status: OperationState::Unknown,
            deployment_id: None,
            url: None,
        },
    );
}

/// A publication that was rejected leaves the entry that was there before, or none.
pub proof fn law_rejected_deployment_is_restored(run: HostingRun, failure: FailureView)
    requires
        ledger_valid(run.ledger),
        run.ledger.vercel is Some,
        run.previous matches Some(entry) ==> is_digest(entry.bundle_fingerprint) && entry.status
            == OperationState::Confirmed && is_given(entry.deployment_id) && is_given(entry.url),
        hosting_action(run) is Publish,
        failure.error is AuthenticationRequired || failure.error is AuthenticationFailed
            || failure.error is PermissionDenied || failure.error is NotFound
            || failure.error is Conflict,
    ensures
        ({
            let after = hosting_step(run, HostingEventView::Published(Err(failure)));
            &&& hosting_action(after) == HostingActionView::Persist(after.ledger)
            &&& after.ledger.vercel == run.previous
            &&& after.ledger.r2_inventory == run.ledger.r2_inventory
            &&& after.ledger.github_inventory == run.ledger.github_inventory
            &&& same_publication(after.ledger, run.ledger)
            &&& hosting_step(after, HostingEventView::Persisted).stage
                matches HostingStageView::Done(Some(HostingErrorView::Rejected(_)))
        }),
{
    match run.previous {
        Some(entry) => law_deployment_is_recorded(run.ledger, entry),
        None => law_deployment_is_removed(run.ledger),
    }
}

/// A run whose ledger could not be written ends with the ledger that was found on
/// disk, or with its own where none could be read.
pub proof fn law_unwritten_hosting_ledger(
    run: HostingRun,
    durable: Option<LedgerView>,
    message: Seq<char>,
)
    requires
        hosting_action(run) is Persist,
    ensures
        ({
            let after = hosting_step(run, HostingEventView::NotPersisted(durable, message));
            &&& after.ledger == match durable {
                Some(found) => found,
                None => run.ledger,
            }
            &&& after.stage == HostingStageView::Done(
                Some(HostingErrorView::Ledger(LedgerFailureView::NotPersisted(message))),
            )
        }),
{
}

/// A run that waits for something is not moved by anything else.
pub proof fn law_hosting_waits(run: HostingRun, event: HostingEventView)
    requires
        match run.stage {
            HostingStageView::Publish => !(event is Published),
            HostingStageView::Done(_) => true,
            _ => !(event is Persisted) && !(event is NotPersisted),
        },
    ensures
        hosting_step(run, event) == run,
{
}

} // verus!
