//! How the service's worker catalog is driven toward the desired one.
//!
//! A run holds the work that is left: workers to register or to register anew,
//! then workers to delete. Each success shortens it; a failure leaves it, and
//! what the picker believes to be registered, as they were.
use crate::selection::{SelectionErrorView, SelectorErrorView, WorkerRequest};
use crate::selector;
use crate::selector::Selector;
use crate::worker::{RegistrationView, WorkerRegistration};
use vstd::prelude::*;

verus! {

/// Work left to do, the next item last.
#[derive(Debug)]
pub struct ReconcileRun {
    pub upserts: Vec<(u64, WorkerRegistration)>,
    pub deletes: Vec<u64>,
}

/// What a [`ReconcileRun`] says.
#[verifier::ext_equal]
pub struct RunView {
    pub upserts: Seq<(u64, RegistrationView)>,
    pub deletes: Seq<u64>,
}

impl View for ReconcileRun {
    type V = RunView;

    open spec fn view(&self) -> RunView {
        RunView {
            upserts: self.upserts@.map_values(|u: (u64, WorkerRegistration)| (u.0, u.1@)),
            deletes: self.deletes@,
        }
    }
}

/// What to do next in a run.
#[derive(Debug)]
pub enum ReconcileAction {
    /// Register this worker, or register it anew.
    Upsert(WorkerRequest),
    /// Delete the worker with this id.
    Delete(u64),
    /// Nothing is left.
    Done,
}

/// The next step of a run.
pub enum StepView {
    Upsert(u64, RegistrationView),
    Delete(u64),
    Done,
}

/// A desired worker that is not registered as desired.
pub open spec fn outdated(
    catalog: Map<u64, RegistrationView>,
    desired: Map<u64, RegistrationView>,
    id: u64,
) -> bool {
    desired.contains_key(id) && !(catalog.contains_key(id) && catalog[id] == desired[id])
}

/// A registered worker that is no longer desired.
pub open spec fn stale(
    catalog: Map<u64, RegistrationView>,
    desired: Map<u64, RegistrationView>,
    id: u64,
) -> bool {
    catalog.contains_key(id) && !desired.contains_key(id)
}

/// Some upsert of the run is of this worker.
pub open spec fn upserts_worker(run: RunView, id: u64) -> bool {
    exists|i: int| 0 <= i < run.upserts.len() && (#[trigger] run.upserts[i]).0 == id
}

/// The run holds each outdated worker once, as it is desired, and each stale
/// worker once, and nothing else.
pub open spec fn planned(
    run: RunView,
    catalog: Map<u64, RegistrationView>,
    desired: Map<u64, RegistrationView>,
) -> bool {
    &&& forall|i: int|
        0 <= i < run.upserts.len() ==> outdated(catalog, desired, (#[trigger] run.upserts[i]).0)
            && run.upserts[i].1 == desired[run.upserts[i].0]
    &&& forall|id: u64| #[trigger] outdated(catalog, desired, id) ==> upserts_worker(run, id)
    &&& forall|i: int, j: int|
        0 <= i < j < run.upserts.len() ==> (#[trigger] run.upserts[i]).0 != (
        #[trigger] run.upserts[j]).0
    &&& forall|i: int|
        0 <= i < run.deletes.len() ==> stale(catalog, desired, #[trigger] run.deletes[i])
    &&& forall|id: u64| #[trigger] stale(catalog, desired, id) ==> run.deletes.contains(id)
    &&& run.deletes.no_duplicates()
}

/// The next step: upserts as long as there are any, then deletes.
pub open spec fn next_step(run: RunView) -> StepView {
    if run.upserts.len() > 0 {
        StepView::Upsert(run.upserts.last().0, run.upserts.last().1)
    } else if run.deletes.len() > 0 {
        StepView::Delete(run.deletes.last())
    } else {
        StepView::Done
    }
}

/// Whether the service's answer to a step counts as a success. To delete a
/// worker that the service does not know is one.
pub open spec fn accepted(step: StepView, outcome: Result<(), SelectionErrorView>) -> bool {
    match outcome {
        Ok(_) => true,
        Err(error) => step is Done || (step is Delete && error is NotFound),
    }
}

/// The run after the service answered its next step.
pub open spec fn run_after(run: RunView, outcome: Result<(), SelectionErrorView>) -> RunView {
    if !accepted(next_step(run), outcome) {
        run
    } else {
        match next_step(run) {
            StepView::Upsert(_, _) => RunView { upserts: run.upserts.drop_last(), ..run },
            StepView::Delete(_) => RunView { deletes: run.deletes.drop_last(), ..run },
            StepView::Done => run,
        }
    }
}

/// The catalog after the service answered the run's next step.
pub open spec fn catalog_after(
    run: RunView,
    catalog: Map<u64, RegistrationView>,
    outcome: Result<(), SelectionErrorView>,
) -> Map<u64, RegistrationView> {
    if !accepted(next_step(run), outcome) {
        catalog
    } else {
        match next_step(run) {
            StepView::Upsert(id, registration) => catalog.insert(id, registration),
            StepView::Delete(id) => catalog.remove(id),
            StepView::Done => catalog,
        }
    }
}

/// What the picker reports after the service answered the run's next step.
pub open spec fn verdict(run: RunView, outcome: Result<(), SelectionErrorView>) -> Result<
    (),
    SelectorErrorView,
> {
    match outcome {
        Ok(_) => Ok(()),
        Err(error) => if accepted(next_step(run), outcome) {
            Ok(())
        } else if next_step(run) is Upsert {
            Err(SelectorErrorView::UpsertFailed(error.text()))
        } else {
            Err(SelectorErrorView::DeleteFailed(error.text()))
        },
    }
}

impl ReconcileRun {
    /// What to do next.
    pub fn action(&self) -> (r: ReconcileAction)
        ensures
            match next_step(self@) {
                StepView::Upsert(_, registration) => r matches ReconcileAction::Upsert(request)
                    && request@ == selector::worker_request_of(registration),
                StepView::Delete(id) => r matches ReconcileAction::Delete(worker_id) && worker_id
                    == id,
                StepView::Done => r is Done,
            },
    {
        if self.upserts.len() > 0 {
            ReconcileAction::Upsert(Selector::worker_request(&self.upserts[self.upserts.len() - 1].1))
        } else if self.deletes.len() > 0 {
            ReconcileAction::Delete(self.deletes[self.deletes.len() - 1])
        } else {
            ReconcileAction::Done
        }
    }
}

/// How many steps are left.
pub open spec fn steps_left(run: RunView) -> nat {
    run.upserts.len() + run.deletes.len()
}

/// The run and the catalog after the service answered one step after another,
/// up to the first answer that is not a success.
pub open spec fn replayed(
    run: RunView,
    catalog: Map<u64, RegistrationView>,
    outcomes: Seq<Result<(), SelectionErrorView>>,
) -> (RunView, Map<u64, RegistrationView>)
    decreases outcomes.len(),
{
    if outcomes.len() == 0 || !accepted(next_step(run), outcomes[0]) {
        (run, catalog)
    } else {
        replayed(
            run_after(run, outcomes[0]),
            catalog_after(run, catalog, outcomes[0]),
            outcomes.drop_first(),
        )
    }
}

/// The service accepts every step of the replay.
pub open spec fn all_accepted(
    run: RunView,
    outcomes: Seq<Result<(), SelectionErrorView>>,
) -> bool
    decreases outcomes.len(),
{
    outcomes.len() == 0 || (accepted(next_step(run), outcomes[0]) && all_accepted(
        run_after(run, outcomes[0]),
        outcomes.drop_first(),
    ))
}

/// A planned run has nothing left exactly when the catalog is the desired one.
/// So reconciling a catalog with itself does nothing.
pub proof fn law_done_means_reconciled(
    run: RunView,
    catalog: Map<u64, RegistrationView>,
    desired: Map<u64, RegistrationView>,
)
    requires
        planned(run, catalog, desired),
    ensures
        next_step(run) is Done <==> catalog == desired,
{
    if next_step(run) is Done {
        assert forall|id: u64| catalog.contains_key(id) <==> desired.contains_key(id) by {
            assert(!outdated(catalog, desired, id));
            assert(!stale(catalog, desired, id));
        }
        assert forall|id: u64| #[trigger] catalog.contains_key(id) implies catalog[id]
            == desired[id] by {
            assert(!outdated(catalog, desired, id));
        }
        assert(catalog =~= desired);
    }
    if catalog == desired {
        if run.upserts.len() > 0 {
            assert(outdated(catalog, desired, run.upserts[0].0));
        }
        if run.deletes.len() > 0 {
            assert(stale(catalog, desired, run.deletes[0]));
        }
    }
}

/// A planned run registers only workers that are not registered as desired,
/// and each as desired; it deletes only workers that are no longer desired, and
/// only once no upsert is left to do.
pub proof fn law_steps_are_needed(
    run: RunView,
    catalog: Map<u64, RegistrationView>,
    desired: Map<u64, RegistrationView>,
)
    requires
        planned(run, catalog, desired),
    ensures
        next_step(run) matches StepView::Upsert(id, registration) ==> outdated(
            catalog,
            desired,
            id,
        ) && registration == desired[id],
        next_step(run) matches StepView::Delete(id) ==> stale(catalog, desired, id) && forall|
            other: u64,
        |
            !outdated(catalog, desired, other),
{
    if run.upserts.len() > 0 {
        assert(run.upserts.last() == run.upserts[run.upserts.len() - 1]);
    } else if run.deletes.len() > 0 {
        assert(run.deletes.last() == run.deletes[run.deletes.len() - 1]);
        assert forall|other: u64| !outdated(catalog, desired, other) by {
            if outdated(catalog, desired, other) {
                assert(upserts_worker(run, other));
            }
        }
    }
}

/// Two plans for the same catalog and the same desired workers hold the same
/// work, in whatever order.
pub proof fn law_plans_hold_the_same_work(
    a: RunView,
    b: RunView,
    catalog: Map<u64, RegistrationView>,
    desired: Map<u64, RegistrationView>,
)
    requires
        planned(a, catalog, desired),
        planned(b, catalog, desired),
    ensures
        a.upserts.to_multiset() == b.upserts.to_multiset(),
        a.deletes.to_multiset() == b.deletes.to_multiset(),
{
    assert(a.upserts.no_duplicates());
    assert(b.upserts.no_duplicates());
    assert forall|u: (u64, RegistrationView)|
        a.upserts.contains(u) <==> b.upserts.contains(u) by {
        lemma_planned_upserts(a, b, catalog, desired, u);
        lemma_planned_upserts(b, a, catalog, desired, u);
    }
    assert forall|id: u64| a.deletes.contains(id) <==> b.deletes.contains(id) by {
        if a.deletes.contains(id) {
            assert(stale(catalog, desired, id));
        }
        if b.deletes.contains(id) {
            assert(stale(catalog, desired, id));
        }
    }
    lemma_same_items(a.upserts, b.upserts);
    lemma_same_items(a.deletes, b.deletes);
}

proof fn lemma_planned_upserts(
    a: RunView,
    b: RunView,
    catalog: Map<u64, RegistrationView>,
    desired: Map<u64, RegistrationView>,
    u: (u64, RegistrationView),
)
    requires
        planned(a, catalog, desired),
        planned(b, catalog, desired),
    ensures
        a.upserts.contains(u) ==> b.upserts.contains(u),
{
    if a.upserts.contains(u) {
        let i = choose|i: int| 0 <= i < a.upserts.len() && a.upserts[i] == u;
        assert(outdated(catalog, desired, a.upserts[i].0));
        assert(upserts_worker(b, u.0));
        let j = choose|j: int| 0 <= j < b.upserts.len() && (#[trigger] b.upserts[j]).0 == u.0;
        assert(b.upserts[j] == u);
    }
}

proof fn lemma_same_items<A>(a: Seq<A>, b: Seq<A>)
    requires
        a.no_duplicates(),
        b.no_duplicates(),
        forall|x: A| a.contains(x) <==> b.contains(x),
    ensures
        a.to_multiset() == b.to_multiset(),
{
    broadcast use vstd::seq_lib::group_to_multiset_ensures;

    a.lemma_multiset_has_no_duplicates();
    b.lemma_multiset_has_no_duplicates();
    assert(a.to_multiset() =~= b.to_multiset());
}

/// Whatever the service answers, the run stays the plan for the catalog as it
/// then is. So after a failure a fresh plan holds the work that this one has
/// left.
pub proof fn law_plan_is_kept(
    run: RunView,
    catalog: Map<u64, RegistrationView>,
    desired: Map<u64, RegistrationView>,
    outcome: Result<(), SelectionErrorView>,
)
    requires
        planned(run, catalog, desired),
    ensures
        planned(run_after(run, outcome), catalog_after(run, catalog, outcome), desired),
{
    let next = run_after(run, outcome);
    let after = catalog_after(run, catalog, outcome);
    law_steps_are_needed(run, catalog, desired);
    if accepted(next_step(run), outcome) {
        match next_step(run) {
            StepView::Upsert(id, registration) => {
                let n = run.upserts.len() - 1;
                assert(run.upserts[n].0 == id);
                assert forall|i: int| 0 <= i < next.upserts.len() implies outdated(
                    after,
                    desired,
                    (#[trigger] next.upserts[i]).0,
                ) && next.upserts[i].1 == desired[next.upserts[i].0] by {
                    assert(next.upserts[i] == run.upserts[i]);
                    assert(run.upserts[i].0 != run.upserts[n].0);
                }
                assert forall|other: u64| #[trigger]
                    outdated(after, desired, other) implies upserts_worker(next, other) by {
                    assert(other != id);
                    assert(outdated(catalog, desired, other));
                    assert(upserts_worker(run, other));
                    let i = choose|i: int|
                        0 <= i < run.upserts.len() && (#[trigger] run.upserts[i]).0 == other;
                    assert(next.upserts[i].0 == other);
                }
                assert forall|i: int, j: int| 0 <= i < j < next.upserts.len() implies (
                #[trigger] next.upserts[i]).0 != (#[trigger] next.upserts[j]).0 by {
                    assert(next.upserts[i] == run.upserts[i]);
                    assert(next.upserts[j] == run.upserts[j]);
                }
                assert forall|i: int| 0 <= i < next.deletes.len() implies stale(
                    after,
                    desired,
                    #[trigger] next.deletes[i],
                ) by {
                    assert(stale(catalog, desired, run.deletes[i]));
                }
                assert forall|other: u64| #[trigger]
                    stale(after, desired, other) implies next.deletes.contains(other) by {
                    assert(stale(catalog, desired, other));
                }
            },
            StepView::Delete(id) => {
                let n = run.deletes.len() - 1;
                assert(run.deletes[n] == id);
                assert forall|i: int| 0 <= i < next.deletes.len() implies stale(
                    after,
                    desired,
                    #[trigger] next.deletes[i],
                ) by {
                    assert(next.deletes[i] == run.deletes[i]);
                    assert(run.deletes[i] != run.deletes[n]);
                }
                assert forall|other: u64| #[trigger]
                    stale(after, desired, other) implies next.deletes.contains(other) by {
                    assert(other != id);
                    assert(stale(catalog, desired, other));
                    let i = choose|i: int| 0 <= i < run.deletes.len() && run.deletes[i] == other;
                    assert(next.deletes[i] == other);
                }
                assert forall|other: u64| #[trigger]
                    outdated(after, desired, other) implies upserts_worker(next, other) by {
                    assert(outdated(catalog, desired, other));
                }
            },
            StepView::Done => {},
        }
    }
}

/// Each success does one step of the work.
pub proof fn law_each_success_is_one_step(
    run: RunView,
    catalog: Map<u64, RegistrationView>,
    outcome: Result<(), SelectionErrorView>,
)
    ensures
        accepted(next_step(run), outcome) && next_step(run) !is Done ==> steps_left(
            run_after(run, outcome),
        ) == steps_left(run) - 1,
        !accepted(next_step(run), outcome) ==> run_after(run, outcome) == run && catalog_after(
            run,
            catalog,
            outcome,
        ) == catalog && verdict(run, outcome) is Err,
        accepted(next_step(run), outcome) ==> verdict(run, outcome) is Ok,
        next_step(run) is Done <==> steps_left(run) == 0,
{
}

/// Where the service accepts every step, a planned run is over after exactly
/// as many steps as it held, and the catalog is then the desired one.
pub proof fn law_reconcile_converges(
    run: RunView,
    catalog: Map<u64, RegistrationView>,
    desired: Map<u64, RegistrationView>,
    outcomes: Seq<Result<(), SelectionErrorView>>,
)
    requires
        planned(run, catalog, desired),
        outcomes.len() == steps_left(run),
        all_accepted(run, outcomes),
    ensures
        next_step(replayed(run, catalog, outcomes).0) is Done,
        replayed(run, catalog, outcomes).1 == desired,
    decreases outcomes.len(),
{
    if outcomes.len() == 0 {
        law_done_means_reconciled(run, catalog, desired);
    } else {
        let outcome = outcomes[0];
        law_plan_is_kept(run, catalog, desired, outcome);
        law_each_success_is_one_step(run, catalog, outcome);
        law_reconcile_converges(
            run_after(run, outcome),
            catalog_after(run, catalog, outcome),
            desired,
            outcomes.drop_first(),
        );
    }
}

/// However far a run gets, what is left of it is the plan for the catalog that
/// it leaves behind.
pub proof fn law_interrupted_run_can_be_resumed(
    run: RunView,
    catalog: Map<u64, RegistrationView>,
    desired: Map<u64, RegistrationView>,
    outcomes: Seq<Result<(), SelectionErrorView>>,
)
    requires
        planned(run, catalog, desired),
    ensures
        planned(
            replayed(run, catalog, outcomes).0,
            replayed(run, catalog, outcomes).1,
            desired,
        ),
    decreases outcomes.len(),
{
    if outcomes.len() != 0 && accepted(next_step(run), outcomes[0]) {
        law_plan_is_kept(run, catalog, desired, outcomes[0]);
        law_interrupted_run_can_be_resumed(
            run_after(run, outcomes[0]),
            catalog_after(run, catalog, outcomes[0]),
            desired,
            outcomes.drop_first(),
        );
    }
}

/// The next action is on the item that comes next: the last registration, as
/// long as there are any, with each of its fields, then the last deletion. It is
/// done exactly where no item is left.
pub proof fn law_action_is_the_next_item(run: ReconcileRun, action: ReconcileAction)
    requires
        call_ensures(ReconcileRun::action, (&run,), action),
    ensures
        action is Upsert <==> run.upserts@.len() > 0,
        action is Done <==> run.upserts@.len() == 0 && run.deletes@.len() == 0,
        action matches ReconcileAction::Upsert(request) ==> selector::carries(
            request,
            run.upserts@.last().1,
        ),
        action matches ReconcileAction::Delete(id) ==> id == run.deletes@.last(),
{
    assert(run@.upserts.len() == run.upserts@.len());
    if run.upserts@.len() > 0 {
        let reg = run.upserts@.last().1;
        assert(run@.upserts.last().1 == reg@);
        if let ReconcileAction::Upsert(request) = action {
            selector::lemma_carries(request, reg);
        }
    }
}

} // verus!
