//! Shutdowns and restarts of a supervisor from their beginning to their end.

use vstd::prelude::*;

use crate::actor::ActorTurn;
use crate::envelope::ExitSignal;
use crate::types::{ActorId, ChildSpec, ExitReason};

use super::machine::{SupervisorActor, SupervisorRequest, SupervisorStep, SupervisorWait};
use super::state::SupervisorAction;

verus! {

/// A shutdown from its beginning to its end: the supervisor each time it has taken a step, with
/// what it asks for, the supervisor each time the runtime has accepted the request, and the exits
/// that it hears of.
pub struct ShutdownRun<S> {
    /// The supervisor after each of its steps.
    pub asked: Seq<SupervisorActor<S>>,
    /// What it asks for in each of its steps.
    pub requests: Seq<SupervisorRequest>,
    /// The supervisor after each accepted request.
    pub waiting: Seq<SupervisorActor<S>>,
    /// The exits that it hears of.
    pub exits: Seq<ExitSignal>,
    /// How it answers each exit.
    pub steps: Seq<SupervisorStep>,
}

impl<S> ShutdownRun<S> {
    /// Whether the run begins with a supervisor that is about to stop with the given reason, the
    /// runtime accepts each request, and each exit is that of the child that was asked last.
    pub open spec fn follows(
        self,
        first: SupervisorActor<S>,
        reason: ExitReason,
        exits: nat,
    ) -> bool {
        &&& self.asked.len() == exits + 1
        &&& self.requests.len() == exits + 1
        &&& self.waiting.len() == exits
        &&& self.exits.len() == exits
        &&& self.steps.len() == exits
        &&& self.asked[0].same_children(first)
        &&& self.asked[0].stops_all(self.requests[0], reason)
        &&& forall|k: int| 0 <= k < exits ==> self.goes_on(k)
    }

    /// Whether a step of the run leads to the next one.
    pub open spec fn goes_on(self, k: int) -> bool {
        &&& self.waiting[k].awaits_exit(self.asked[k])
        &&& self.requests[k] matches SupervisorRequest::ShutdownChild { actor, .. }
        &&& self.exits[k].from == actor
        &&& self.asked[k + 1].state.specs == self.waiting[k].state.specs
        &&& self.asked[k + 1].forgot(self.waiting[k], actor)
        &&& self.asked[k + 1].handled_exit(self.waiting[k], self.exits[k], self.steps[k])
        &&& self.steps[k].request == self.requests[k + 1]
    }
}

/// Whether the specs name no child twice.
pub open spec fn children_distinct(specs: Seq<ChildSpec>) -> bool {
    forall|i: int, j: int|
        0 <= i < j < specs.len() ==> (#[trigger] specs[i]).id@ != (#[trigger] specs[j]).id@
}

/// Whether a run has come as far as a child in the queue: that child and those behind it run as
/// they did, and the supervisor asks for that child.
spec fn come_to<S>(
    first: SupervisorActor<S>,
    now: SupervisorActor<S>,
    request: SupervisorRequest,
    queue: Seq<&'static str>,
    reason: ExitReason,
    k: int,
) -> bool {
    &&& now.state.specs == first.state.specs
    &&& now.state.paired()
    &&& forall|j: int|
        k <= j < queue.len() ==> now.state.running@.contains_key((#[trigger] queue[j])@)
            && now.state.running@[queue[j]@] == first.state.running@[queue[j]@]
    &&& now.stops(request, queue.skip(k), reason)
}

proof fn lemma_queue_is_distinct<S>(first: SupervisorActor<S>, i: int, j: int)
    requires
        children_distinct(first.state.specs@),
        0 <= i < j < super::state::all_running_reversed(
            first.state.specs@,
            first.state.running@,
        ).len(),
    ensures
        ({
            let queue = super::state::all_running_reversed(
                first.state.specs@,
                first.state.running@,
            );
            queue[i]@ != queue[j]@
        }),
{
    let specs = first.state.specs@;
    super::laws::lemma_children_stop_in_reverse_order(specs, first.state.running@, i, j);
    let queue = super::state::all_running_reversed(specs, first.state.running@);
    let (p, q) = choose|p: int, q: int|
        0 <= q < p < specs.len() && (#[trigger] specs[p]).id == queue[i] && (
        #[trigger] specs[q]).id == queue[j];
    assert(specs[q].id@ != specs[p].id@);
}

proof fn lemma_run_goes_on<S>(
    first: SupervisorActor<S>,
    reason: ExitReason,
    run: ShutdownRun<S>,
    k: int,
)
    requires
        children_distinct(first.state.specs@),
        run.goes_on(k),
        ({
            let queue = super::state::all_running_reversed(
                first.state.specs@,
                first.state.running@,
            );
            &&& 0 <= k < queue.len()
            &&& come_to(first, run.asked[k], run.requests[k], queue, reason, k)
        }),
    ensures
        come_to(
            first,
            run.asked[k + 1],
            run.requests[k + 1],
            super::state::all_running_reversed(first.state.specs@, first.state.running@),
            reason,
            k + 1,
        ),
{
    let queue = super::state::all_running_reversed(first.state.specs@, first.state.running@);
    let now = run.asked[k];
    let waiting = run.waiting[k];
    let next = run.asked[k + 1];
    let rest = queue.skip(k);
    assert(rest[0] == queue[k]);
    let child = queue[k]@;
    let actor = now.state.running@[child];
    assert(now.state.running@.contains_key(child));
    assert(waiting.state.by_actor@.contains_key(actor));
    assert(waiting.state.by_actor@[actor]@ == child);
    assert(rest.drop_first() =~= queue.skip(k + 1));
    assert(next.state.running@ == now.state.running@.remove(child));
    assert forall|j: int| k + 1 <= j < queue.len() implies next.state.running@.contains_key(
        (#[trigger] queue[j])@,
    ) && next.state.running@[queue[j]@] == first.state.running@[queue[j]@] by {
        lemma_queue_is_distinct(first, k, j);
        assert(now.state.running@.contains_key(queue[j]@));
    }
    super::laws::lemma_children_stay_paired(waiting, next, queue[k], actor);
    let left = queue.skip(k + 1);
    if left.len() > 0 {
        assert(left[0] == queue[k + 1]);
        assert(next.state.running@.contains_key(queue[k + 1]@));
    }
    assert(super::machine::settled(left, next.state.running@) == left);
}

proof fn lemma_run_comes_to<S>(
    first: SupervisorActor<S>,
    reason: ExitReason,
    run: ShutdownRun<S>,
    k: nat,
)
    requires
        children_distinct(first.state.specs@),
        first.state.paired(),
        ({
            let queue = super::state::all_running_reversed(
                first.state.specs@,
                first.state.running@,
            );
            &&& run.follows(first, reason, queue.len())
            &&& k <= queue.len()
        }),
    ensures
        come_to(
            first,
            run.asked[k as int],
            run.requests[k as int],
            super::state::all_running_reversed(first.state.specs@, first.state.running@),
            reason,
            k as int,
        ),
    decreases k,
{
    let specs = first.state.specs@;
    let queue = super::state::all_running_reversed(specs, first.state.running@);
    if k == 0 {
        assert(queue.skip(0) =~= queue);
        assert forall|j: int| 0 <= j < queue.len() implies first.state.running@.contains_key(
            (#[trigger] queue[j])@,
        ) by {
            super::laws::lemma_filter_takes_from(
                super::scope::ids(specs).reverse(),
                |id: &'static str| first.state.running@.contains_key(id@),
                j,
            );
        }
    } else {
        lemma_run_comes_to(first, reason, run, (k - 1) as nat);
        assert(run.goes_on(k - 1));
        lemma_run_goes_on(first, reason, run, k - 1);
    }
}

/// The whole run of a shutdown: the supervisor asks its running children to stop, the one started
/// last first, each with its own policy and each next one only when the one before it has exited;
/// it stops itself, with the reason that it began with, once the last of them has exited, or at
/// once when none runs.
pub proof fn lemma_shutdown_runs_through_all_children<S>(
    first: SupervisorActor<S>,
    reason: ExitReason,
    run: ShutdownRun<S>,
)
    requires
        children_distinct(first.state.specs@),
        first.state.paired(),
        run.follows(
            first,
            reason,
            super::state::all_running_reversed(first.state.specs@, first.state.running@).len(),
        ),
    ensures
        ({
            let queue = super::state::all_running_reversed(
                first.state.specs@,
                first.state.running@,
            );
            &&& forall|k: int|
                0 <= k < queue.len() ==> #[trigger] run.requests[k]
                    == SupervisorRequest::ShutdownChild {
                    actor: first.state.running@[queue[k]@],
                    policy: first.spec_of(queue[k]@).shutdown,
                }
            &&& run.requests[queue.len() as int] == SupervisorRequest::Finish(
                ActorTurn::Stop(reason),
            )
        }),
{
    let queue = super::state::all_running_reversed(first.state.specs@, first.state.running@);
    assert forall|k: int| 0 <= k < queue.len() implies #[trigger] run.requests[k]
        == SupervisorRequest::ShutdownChild {
        actor: first.state.running@[queue[k]@],
        policy: first.spec_of(queue[k]@).shutdown,
    } by {
        lemma_run_comes_to(first, reason, run, k as nat);
        assert(queue.skip(k)[0] == queue[k]);
    }
    lemma_run_comes_to(first, reason, run, queue.len());
}

/// A restart from its first step to its end: the supervisor each time it has taken a step, with
/// what it asks for, the supervisor each time the runtime has accepted to stop a child, the exits
/// that it hears of, and the actors as which the children start again.
pub struct RestartRun<S> {
    /// The supervisor after each of its steps.
    pub asked: Seq<SupervisorActor<S>>,
    /// What it asks for in each of its steps.
    pub requests: Seq<SupervisorRequest>,
    /// The supervisor after each accepted request to stop a child.
    pub waiting: Seq<SupervisorActor<S>>,
    /// The exits that it hears of.
    pub exits: Seq<ExitSignal>,
    /// How it answers each exit.
    pub steps: Seq<SupervisorStep>,
    /// The actors as which the children start again.
    pub started: Seq<ActorId>,
}

impl<S> RestartRun<S> {
    /// Whether the run begins with a supervisor that is about to restart the given children, the
    /// runtime accepts each request, each exit is that of the child that was asked last, and each
    /// child starts.
    pub open spec fn follows(
        self,
        first: SupervisorActor<S>,
        children: Seq<&'static str>,
        old_children: Map<Seq<char>, Option<ActorId>>,
    ) -> bool {
        let queue = super::state::running_reversed(
            first.state.specs@,
            first.state.running@,
            children,
        );
        &&& self.asked.len() == queue.len() + children.len() + 1
        &&& self.requests.len() == queue.len() + children.len() + 1
        &&& self.waiting.len() == queue.len()
        &&& self.exits.len() == queue.len()
        &&& self.steps.len() == queue.len()
        &&& self.started.len() == children.len()
        &&& self.asked[0].same_children(first)
        &&& self.asked[0].restarts(self.requests[0], queue, children, old_children)
        &&& forall|k: int| 0 <= k < queue.len() ==> self.stops_on(k)
        &&& forall|k: int| 0 <= k < children.len() ==> self.starts_on(queue.len() as int, k)
    }

    /// Whether the exit of a child leads from a step of the run to the next one.
    pub open spec fn stops_on(self, k: int) -> bool {
        &&& self.asked[k].wait matches SupervisorWait::RestartShutdown { plan, actor, .. }
        &&& self.waiting[k].same_children(self.asked[k])
        &&& self.waiting[k].state.action == Some(SupervisorAction::Restart(plan))
        &&& self.exits[k].from == actor
        &&& self.asked[k + 1].state.specs == self.waiting[k].state.specs
        &&& self.asked[k + 1].forgot(self.waiting[k], actor)
        &&& self.asked[k + 1].handled_exit(self.waiting[k], self.exits[k], self.steps[k])
        &&& self.steps[k].request == self.requests[k + 1]
    }

    /// Whether the start of a child leads from a step of the run to the next one, once a number of
    /// children have stopped.
    pub open spec fn starts_on(self, stopped: int, k: int) -> bool {
        let before = self.asked[stopped + k];
        let after = self.asked[stopped + k + 1];
        &&& before.wait matches SupervisorWait::RestartStart { plan, child_id }
        &&& after.state.specs == before.state.specs
        &&& after.state.running@ == before.state.running@.insert(child_id@, self.started[k])
        &&& after.starts(
            self.requests[stopped + k + 1],
            plan.restart_queue@,
            plan.old_children@,
        )
    }
}

/// Whether a restart has come as far as a child in the queue of those to stop: the children in
/// front of it have stopped, that child and those behind it run as they did, and the supervisor
/// asks for that child.
spec fn stopped_up_to<S>(
    first: SupervisorActor<S>,
    now: SupervisorActor<S>,
    request: SupervisorRequest,
    children: Seq<&'static str>,
    old_children: Map<Seq<char>, Option<ActorId>>,
    k: int,
) -> bool {
    let queue = super::state::running_reversed(first.state.specs@, first.state.running@, children);
    &&& now.state.specs == first.state.specs
    &&& now.state.paired()
    &&& forall|j: int|
        k <= j < queue.len() ==> now.state.running@.contains_key((#[trigger] queue[j])@)
            && now.state.running@[queue[j]@] == first.state.running@[queue[j]@]
    &&& forall|j: int|
        0 <= j < k ==> !now.state.running@.contains_key((#[trigger] queue[j])@)
    &&& forall|child: Seq<char>| #[trigger]
        now.state.running@.contains_key(child) ==> first.state.running@.contains_key(child)
    &&& now.restarts(request, queue.skip(k), children, old_children)
}

/// Whether a restart has come as far as a child in the queue of those to start: that child and
/// those behind it do not run, and the supervisor asks for that child.
spec fn started_up_to<S>(
    first: SupervisorActor<S>,
    now: SupervisorActor<S>,
    request: SupervisorRequest,
    children: Seq<&'static str>,
    old_children: Map<Seq<char>, Option<ActorId>>,
    k: int,
) -> bool {
    &&& now.state.specs == first.state.specs
    &&& forall|j: int|
        k <= j < children.len() ==> !now.state.running@.contains_key((#[trigger] children[j])@)
    &&& now.starts(request, children.skip(k), old_children)
}

/// What passes a filter on the ids of distinct children is distinct.
proof fn lemma_filtered_ids_are_distinct(
    specs: Seq<ChildSpec>,
    all: Seq<&'static str>,
    keep: spec_fn(&'static str) -> bool,
    i: int,
    j: int,
)
    requires
        children_distinct(specs),
        all == super::scope::ids(specs) || all == super::scope::ids(specs).reverse(),
        0 <= i < j < all.filter(keep).len(),
    ensures
        all.filter(keep)[i]@ != all.filter(keep)[j]@,
{
    super::laws::lemma_filter_keeps_order(all, keep, i, j);
    let (p, q) = choose|p: int, q: int|
        0 <= p < q < all.len() && #[trigger] all[p] == all.filter(keep)[i]
            && #[trigger] all[q] == all.filter(keep)[j];
    let n = specs.len() - 1;
    if all == super::scope::ids(specs) {
        assert(specs[p].id@ != specs[q].id@);
    } else {
        assert(specs[n - q].id@ != specs[n - p].id@);
    }
}

proof fn lemma_restart_stops_on<S>(
    first: SupervisorActor<S>,
    children: Seq<&'static str>,
    old_children: Map<Seq<char>, Option<ActorId>>,
    run: RestartRun<S>,
    k: int,
)
    requires
        children_distinct(first.state.specs@),
        0 <= k < super::state::running_reversed(
            first.state.specs@,
            first.state.running@,
            children,
        ).len(),
        run.stops_on(k),
        stopped_up_to(first, run.asked[k], run.requests[k], children, old_children, k),
    ensures
        stopped_up_to(
            first,
            run.asked[k + 1],
            run.requests[k + 1],
            children,
            old_children,
            k + 1,
        ),
{
    let specs = first.state.specs@;
    let queue = super::state::running_reversed(specs, first.state.running@, children);
    let now = run.asked[k];
    let waiting = run.waiting[k];
    let next = run.asked[k + 1];
    let rest = queue.skip(k);
    assert(rest[0] == queue[k]);
    let child = queue[k]@;
    let actor = now.state.running@[child];
    assert(now.state.running@.contains_key(child));
    assert(waiting.state.by_actor@.contains_key(actor));
    assert(waiting.state.by_actor@[actor]@ == child);
    assert(rest.drop_first() =~= queue.skip(k + 1));
    assert(next.state.running@ == now.state.running@.remove(child));
    super::laws::lemma_children_stay_paired(waiting, next, queue[k], actor);
    let all = super::scope::ids(specs).reverse();
    let keep = |id: &'static str|
        super::state::mentions(children, id@) && first.state.running@.contains_key(id@);
    assert forall|j: int| k + 1 <= j < queue.len() implies next.state.running@.contains_key(
        (#[trigger] queue[j])@,
    ) && next.state.running@[queue[j]@] == first.state.running@[queue[j]@] by {
        lemma_filtered_ids_are_distinct(specs, all, keep, k, j);
        assert(now.state.running@.contains_key(queue[j]@));
    }
}

proof fn lemma_restart_stops<S>(
    first: SupervisorActor<S>,
    children: Seq<&'static str>,
    old_children: Map<Seq<char>, Option<ActorId>>,
    run: RestartRun<S>,
    k: nat,
)
    requires
        children_distinct(first.state.specs@),
        first.state.paired(),
        run.follows(first, children, old_children),
        k <= super::state::running_reversed(
            first.state.specs@,
            first.state.running@,
            children,
        ).len(),
    ensures
        stopped_up_to(
            first,
            run.asked[k as int],
            run.requests[k as int],
            children,
            old_children,
            k as int,
        ),
    decreases k,
{
    let specs = first.state.specs@;
    let queue = super::state::running_reversed(specs, first.state.running@, children);
    if k == 0 {
        assert(queue.skip(0) =~= queue);
        assert forall|j: int| 0 <= j < queue.len() implies first.state.running@.contains_key(
            (#[trigger] queue[j])@,
        ) by {
            super::laws::lemma_filter_takes_from(
                super::scope::ids(specs).reverse(),
                |id: &'static str|
                    super::state::mentions(children, id@) && first.state.running@.contains_key(id@),
                j,
            );
        }
    } else {
        lemma_restart_stops(first, children, old_children, run, (k - 1) as nat);
        assert(run.stops_on(k - 1));
        lemma_restart_stops_on(first, children, old_children, run, k - 1);
    }
}

proof fn lemma_restart_starts<S>(
    first: SupervisorActor<S>,
    requested: Seq<&'static str>,
    old_children: Map<Seq<char>, Option<ActorId>>,
    run: RestartRun<S>,
    k: nat,
)
    requires
        children_distinct(first.state.specs@),
        first.state.paired(),
        run.follows(
            first,
            super::state::in_start_order(first.state.specs@, requested),
            old_children,
        ),
        k <= super::state::in_start_order(first.state.specs@, requested).len(),
    ensures
        ({
            let children = super::state::in_start_order(first.state.specs@, requested);
            let stopped = super::state::running_reversed(
                first.state.specs@,
                first.state.running@,
                children,
            ).len() as int;
            started_up_to(
                first,
                run.asked[stopped + k],
                run.requests[stopped + k],
                children,
                old_children,
                k as int,
            )
        }),
    decreases k,
{
    let specs = first.state.specs@;
    let ids = super::scope::ids(specs);
    let children = super::state::in_start_order(specs, requested);
    let queue = super::state::running_reversed(specs, first.state.running@, children);
    let wanted = |id: &'static str| super::state::mentions(requested, id@);
    if k == 0 {
        lemma_restart_stops(first, children, old_children, run, queue.len());
        assert(queue.skip(queue.len() as int) =~= Seq::<&'static str>::empty());
        assert(children.skip(0) =~= children);
        let now = run.asked[queue.len() as int];
        let all = ids.reverse();
        let keep = |id: &'static str|
            super::state::mentions(children, id@) && first.state.running@.contains_key(id@);
        assert forall|j: int| 0 <= j < children.len() implies !now.state.running@.contains_key(
            (#[trigger] children[j])@,
        ) by {
            if now.state.running@.contains_key(children[j]@) {
                super::laws::lemma_filter_takes_from(ids, wanted, j);
                let p = choose|p: int| 0 <= p < ids.len() && #[trigger] ids[p] == children[j];
                let at = ids.len() - 1 - p;
                assert(all[at] == children[j]);
                assert(keep(all[at]));
                super::laws::lemma_filter_lets_through(all, keep, at);
                let i = choose|i: int| 0 <= i < queue.len() && queue[i] == all[at];
                assert(!now.state.running@.contains_key(queue[i]@));
            }
        }
    } else {
        lemma_restart_starts(first, requested, old_children, run, (k - 1) as nat);
        let last = k - 1;
        let stopped = queue.len() as int;
        assert(run.starts_on(stopped, last));
        let before = run.asked[stopped + last];
        let after = run.asked[stopped + k];
        assert(children.skip(last)[0] == children[last]);
        assert(children.skip(last).drop_first() =~= children.skip(k as int));
        super::laws::lemma_filter_takes_from(ids, wanted, last);
        let p = choose|p: int| 0 <= p < ids.len() && #[trigger] ids[p] == children[last];
        assert(specs[p].id == children[last]);
        assert(!before.state.running@.contains_key(children[last]@));
        assert forall|j: int| k <= j < children.len() implies !after.state.running@.contains_key(
            (#[trigger] children[j])@,
        ) by {
            lemma_filtered_ids_are_distinct(specs, ids, wanted, last, j);
            assert(!before.state.running@.contains_key(children[j]@));
        }
    }
}

/// The whole run of a restart: the supervisor asks those of the requested children that run to
/// stop, the one started last first, each with its own policy and each next one only when the one
/// before it has exited; then it asks for the start of all requested children of which it has a
/// spec, in start order; and then it goes on.
pub proof fn lemma_restart_runs_through_all_children<S>(
    first: SupervisorActor<S>,
    requested: Seq<&'static str>,
    old_children: Map<Seq<char>, Option<ActorId>>,
    run: RestartRun<S>,
)
    requires
        children_distinct(first.state.specs@),
        first.state.paired(),
        run.follows(
            first,
            super::state::in_start_order(first.state.specs@, requested),
            old_children,
        ),
    ensures
        ({
            let children = super::state::in_start_order(first.state.specs@, requested);
            let queue = super::state::running_reversed(
                first.state.specs@,
                first.state.running@,
                children,
            );
            let stopped = queue.len() as int;
            &&& forall|k: int|
                0 <= k < stopped ==> #[trigger] run.requests[k]
                    == SupervisorRequest::ShutdownChild {
                    actor: first.state.running@[queue[k]@],
                    policy: first.spec_of(queue[k]@).shutdown,
                }
            &&& forall|k: int|
                0 <= k < children.len() ==> run.requests[stopped + k]
                    == SupervisorRequest::StartChild(first.spec_of((#[trigger] children[k])@))
            &&& run.requests[stopped + children.len()] == SupervisorRequest::Finish(
                ActorTurn::Continue,
            )
        }),
{
    let specs = first.state.specs@;
    let ids = super::scope::ids(specs);
    let children = super::state::in_start_order(specs, requested);
    let queue = super::state::running_reversed(specs, first.state.running@, children);
    let stopped = queue.len() as int;
    assert forall|k: int| 0 <= k < stopped implies #[trigger] run.requests[k]
        == SupervisorRequest::ShutdownChild {
        actor: first.state.running@[queue[k]@],
        policy: first.spec_of(queue[k]@).shutdown,
    } by {
        lemma_restart_stops(first, children, old_children, run, k as nat);
        assert(queue.skip(k)[0] == queue[k]);
    }
    assert forall|k: int| 0 <= k < children.len() implies run.requests[stopped + k]
        == SupervisorRequest::StartChild(first.spec_of((#[trigger] children[k])@)) by {
        lemma_restart_starts(first, requested, old_children, run, k as nat);
        assert(children.skip(k)[0] == children[k]);
        super::laws::lemma_filter_takes_from(
            ids,
            |id: &'static str| super::state::mentions(requested, id@),
            k,
        );
        let p = choose|p: int| 0 <= p < ids.len() && #[trigger] ids[p] == children[k];
        assert(specs[p].id == children[k]);
    }
    lemma_restart_starts(first, requested, old_children, run, children.len());
}

} // verus!
