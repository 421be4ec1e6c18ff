//! What a supervisor decides in single steps.

use std::time::Duration;

use vstd::prelude::*;

use crate::actor::ActorTurn;
use crate::envelope::ExitSignal;
use crate::time::Timestamp;
use crate::types::{ActorId, ChildSpec, ExitReason, Shutdown, Strategy};

use super::machine::{
    RestartNext,
    StartChildError,
    SupervisorActor,
    SupervisorNotice,
    SupervisorRequest,
    SupervisorStep,
    SupervisorWait,
};
use super::state::SupervisorAction;

verus! {

/// What the strategies restart, spec by spec: one-for-one the failed child and no other, one-for-all
/// every child, and rest-for-one the failed child and those started after it.
pub proof fn lemma_what_each_strategy_restarts(specs: Seq<ChildSpec>, at: int)
    requires
        0 <= at < specs.len(),
        super::runs::children_distinct(specs),
    ensures
        ({
            let one = super::scope::scope(Strategy::OneForOne, specs, specs[at].id@);
            one.len() == 1 && one[0] == specs[at].id
        }),
        ({
            let all = super::scope::scope(Strategy::OneForAll, specs, specs[at].id@);
            &&& all.len() == specs.len()
            &&& forall|i: int| 0 <= i < specs.len() ==> #[trigger] all[i] == specs[i].id
        }),
        ({
            let rest = super::scope::scope(Strategy::RestForOne, specs, specs[at].id@);
            &&& rest.len() == specs.len() - at
            &&& forall|i: int| 0 <= i < rest.len() ==> #[trigger] rest[i] == specs[at + i].id
        }),
{
    super::scope::lemma_first_place(specs, specs[at].id@);
    let first = super::scope::first_place(specs, specs[at].id@) as int;
    assert(super::scope::has_spec(specs, specs[at].id@));
    if first < at {
        assert(specs[first].id@ != specs[at].id@);
    }
    assert(first == at);
    assert(super::scope::ids(specs).len() == specs.len());
    let rest = super::scope::scope(Strategy::RestForOne, specs, specs[at].id@);
    assert forall|i: int| 0 <= i < rest.len() implies #[trigger] rest[i] == specs[at + i].id by {
        assert(super::scope::ids(specs)[at + i] == specs[at + i].id);
    }
}

/// The failure of a child without a spec restarts all children under one-for-all, and none under
/// the other strategies.
pub proof fn lemma_an_unknown_child_restarts_nobody_by_itself(
    specs: Seq<ChildSpec>,
    child: Seq<char>,
)
    requires
        forall|i: int| 0 <= i < specs.len() ==> (#[trigger] specs[i]).id@ != child,
    ensures
        super::scope::scope(Strategy::OneForOne, specs, child).len() == 0,
        super::scope::scope(Strategy::RestForOne, specs, child).len() == 0,
        super::scope::scope(Strategy::OneForAll, specs, child).len() == specs.len(),
{
    super::scope::lemma_first_place(specs, child);
}

/// A restart counts for as long as the period lasts, the last instant included, and the future
/// does not count.
pub proof fn lemma_what_counts_as_a_recent_restart(
    start: Timestamp,
    now: Timestamp,
    period: Duration,
)
    ensures
        start.nanos == now.nanos ==> super::intensity::in_window(start, now, period),
        start.nanos > now.nanos ==> !super::intensity::in_window(start, now, period),
        start.nanos + crate::types::supervision::duration_nanos(period) == now.nanos
            ==> super::intensity::in_window(start, now, period),
        start.nanos + crate::types::supervision::duration_nanos(period) < now.nanos
            ==> !super::intensity::in_window(start, now, period),
{
}

/// A restart is within the limits exactly when, together with the recorded restarts of the last
/// period, it makes no more than the intensity allows; the recorded ones that are older are gone.
pub proof fn lemma_how_many_restarts_are_allowed(
    restarts: Seq<Timestamp>,
    now: Timestamp,
    period: Duration,
    recent: int,
)
    requires
        super::intensity::in_time_order(restarts, now),
        0 <= recent <= restarts.len(),
        forall|i: int|
            0 <= i < restarts.len() - recent ==> (#[trigger] restarts[i]).nanos
                + crate::types::supervision::duration_nanos(period) < now.nanos,
        forall|i: int|
            restarts.len() - recent <= i < restarts.len() ==> (#[trigger] restarts[i]).nanos
                + crate::types::supervision::duration_nanos(period) >= now.nanos,
    ensures
        super::intensity::pruned(restarts, now, period) == restarts.skip(restarts.len() - recent),
        super::intensity::pruned(restarts, now, period).push(now).len() == recent + 1,
    decreases restarts.len(),
{
    if restarts.len() == recent {
        assert(restarts.skip(0) =~= restarts);
        if restarts.len() > 0 {
            assert(restarts[0].nanos <= now.nanos);
        }
    } else {
        let rest = restarts.drop_first();
        assert forall|i: int, j: int| 0 <= i <= j < rest.len() implies (#[trigger] rest[i]).nanos
            <= (#[trigger] rest[j]).nanos by {
            assert(restarts[i + 1].nanos <= restarts[j + 1].nanos);
        }
        assert forall|i: int| 0 <= i < rest.len() implies (#[trigger] rest[i]).nanos
            <= now.nanos by {
            assert(restarts[i + 1].nanos <= now.nanos);
        }
        assert forall|i: int| 0 <= i < rest.len() - recent implies (#[trigger] rest[i]).nanos
            + crate::types::supervision::duration_nanos(period) < now.nanos by {
            assert(rest[i] == restarts[i + 1]);
        }
        assert forall|i: int| rest.len() - recent <= i < rest.len() implies (
        #[trigger] rest[i]).nanos + crate::types::supervision::duration_nanos(period)
            >= now.nanos by {
            assert(rest[i] == restarts[i + 1]);
        }
        assert(restarts[0].nanos + crate::types::supervision::duration_nanos(period) < now.nanos);
        lemma_how_many_restarts_are_allowed(rest, now, period, recent);
        assert(rest.skip(rest.len() - recent) =~= restarts.skip(restarts.len() - recent));
    }
}

/// The start of a child counts only when the actor is the one that was spawned for it; an error
/// of its owner is passed on as it is.
pub proof fn lemma_which_starts_count(
    actor: ActorId,
    other: ActorId,
    error: StartChildError,
    spawned: Option<ActorId>,
)
    ensures
        super::machine::start_outcome(Ok(actor), Some(actor)) == Ok::<ActorId, StartChildError>(
            actor,
        ),
        other != actor ==> super::machine::start_outcome(Ok(actor), Some(other)) == Err::<
            ActorId,
            StartChildError,
        >(StartChildError::SpawnRejected),
        super::machine::start_outcome(Ok(actor), None) == Err::<ActorId, StartChildError>(
            StartChildError::SpawnRejected,
        ),
        super::machine::start_outcome(Err(error), spawned) == Err::<ActorId, StartChildError>(
            error,
        ),
{
}

/// A restart remembers of each of its children the actor that it runs as, of the failed child the
/// actor that it ran as, and of a child that does not run no actor.
pub proof fn lemma_which_actors_a_restart_remembers(
    running: Map<Seq<char>, ActorId>,
    failed: &'static str,
    actor: ActorId,
    children: Seq<&'static str>,
    at: int,
)
    requires
        0 <= at < children.len(),
    ensures
        ({
            let known = super::machine::previous_actors(running, Some((failed, actor)), children);
            let child = children[at]@;
            &&& known.contains_key(child)
            &&& running.contains_key(child) ==> known[child] == Some(running[child])
            &&& !running.contains_key(child) && child == failed@ ==> known[child] == Some(actor)
            &&& !running.contains_key(child) && child != failed@ ==> known[child] is None
        }),
{
    assert(super::state::mentions(children, children[at]@));
}

/// The children that a shutdown stops and those that a restart stops are the ones that run.
pub proof fn lemma_only_running_children_are_stopped(
    specs: Seq<ChildSpec>,
    running: Map<Seq<char>, ActorId>,
    children: Seq<&'static str>,
    child: Seq<char>,
)
    ensures
        super::state::mentions(
            super::state::running_reversed(specs, running, children),
            child,
        ) == (running.contains_key(child) && super::state::mentions(children, child)
            && super::state::mentions(super::scope::ids(specs), child)),
{
    let ids = super::scope::ids(specs);
    let all = ids.reverse();
    let keep = |id: &'static str|
        super::state::mentions(children, id@) && running.contains_key(id@);
    let queue = super::state::running_reversed(specs, running, children);
    if super::state::mentions(queue, child) {
        let i = choose|i: int| 0 <= i < queue.len() && (#[trigger] queue[i])@ == child;
        super::laws::lemma_filter_takes_from(all, keep, i);
        let p = choose|p: int| 0 <= p < all.len() && #[trigger] all[p] == queue[i];
        assert(ids[ids.len() - 1 - p]@ == child);
    }
    if running.contains_key(child) && super::state::mentions(children, child)
        && super::state::mentions(ids, child) {
        let k = choose|k: int| 0 <= k < ids.len() && (#[trigger] ids[k])@ == child;
        let p = ids.len() - 1 - k;
        assert(all[p] == ids[k]);
        assert(keep(all[p]));
        super::laws::lemma_filter_lets_through(all, keep, p);
        let i = choose|i: int| 0 <= i < queue.len() && queue[i] == all[p];
        assert(queue[i]@ == child);
    }
}

/// The startup asks for the children one by one in the order of their specs, each by its own spec,
/// and is over when all of them run.
pub proof fn lemma_how_a_startup_goes_on<S>(
    supervisor: SupervisorActor<S>,
    request: SupervisorRequest,
    index: int,
)
    requires
        super::runs::children_distinct(supervisor.state.specs@),
        0 <= index <= supervisor.state.specs@.len(),
        supervisor.starts_up(request, index),
    ensures
        index == supervisor.state.specs@.len() ==> request == SupervisorRequest::Started(Ok(())),
        index < supervisor.state.specs@.len() && !supervisor.state.running@.contains_key(
            supervisor.state.specs@[index].id@,
        ) ==> request == SupervisorRequest::StartChild(supervisor.state.specs@[index]),
{
    let specs = supervisor.state.specs@;
    if index < specs.len() {
        super::scope::lemma_first_place(specs, specs[index].id@);
        let first = super::scope::first_place(specs, specs[index].id@) as int;
        assert(super::scope::has_spec(specs, specs[index].id@));
        if first < index {
            assert(specs[first].id@ != specs[index].id@);
        }
    }
}

/// A startup that fails kills the running children, whatever their policies are, the one started
/// last first, and then reports why it failed; when the start of a child failed, with the reason of
/// that failure.
pub proof fn lemma_a_failed_startup_kills_what_runs<S>(
    supervisor: SupervisorActor<S>,
    request: SupervisorRequest,
    child: Seq<char>,
    cause: ExitReason,
)
    requires
        supervisor.fails_startup(request, child, StartChildError::InitFailed(cause)),
    ensures
        ({
            let queue = super::state::all_running_reversed(
                supervisor.state.specs@,
                supervisor.state.running@,
            );
            if queue.len() == 0 {
                request == SupervisorRequest::Started(Err(cause))
            } else {
                &&& request == SupervisorRequest::ShutdownChild {
                    actor: supervisor.state.running@[queue[0]@],
                    policy: Shutdown::BrutalKill,
                }
                &&& supervisor.wait matches SupervisorWait::Abort { queue: later, reason }
                &&& later@ == queue.drop_first()
                &&& reason == cause
            }
        }),
{
    let queue = super::state::all_running_reversed(
        supervisor.state.specs@,
        supervisor.state.running@,
    );
    if queue.len() > 0 {
        super::laws::lemma_filter_takes_from(
            super::scope::ids(supervisor.state.specs@).reverse(),
            |id: &'static str| supervisor.state.running@.contains_key(id@),
            0,
        );
    }
}

/// The kills after a failed startup pass over what no longer runs.
pub proof fn lemma_the_kills_of_a_failed_startup_go_on<S>(
    supervisor: SupervisorActor<S>,
    request: SupervisorRequest,
    queue: Seq<&'static str>,
    reason: ExitReason,
)
    requires
        supervisor.aborts(request, queue, reason),
    ensures
        queue.len() == 0 ==> request == SupervisorRequest::Started(Err(reason)),
        queue.len() > 0 && supervisor.state.running@.contains_key(queue[0]@) ==> request
            == (SupervisorRequest::ShutdownChild {
            actor: supervisor.state.running@[queue[0]@],
            policy: Shutdown::BrutalKill,
        }),
        queue.len() > 0 && !supervisor.state.running@.contains_key(queue[0]@)
            ==> supervisor.aborts(request, queue.drop_first(), reason),
{
}

/// What a supervisor with nothing under way does with the exit of one of its children: it tells
/// the runtime, and asks its owner, with the spec of that child, the actor and the reason.
pub proof fn lemma_the_owner_decides_about_an_exit<S>(
    before: SupervisorActor<S>,
    after: SupervisorActor<S>,
    signal: ExitSignal,
    step: SupervisorStep,
)
    requires
        before.state.action is None,
        before.state.has_specs(),
        before.state.by_actor@.contains_key(signal.from),
        after.handled_exit(before, signal, step),
    ensures
        ({
            let child_id = before.state.by_actor@[signal.from];
            &&& step.notices@.len() == 1
            &&& step.notices@[0] == (SupervisorNotice::ChildExited { child_id, actor: signal.from })
            &&& step.request matches SupervisorRequest::Decide { spec, actor, reason }
            &&& spec.id@ == child_id@
            &&& before.state.specs@.contains(spec)
            &&& actor == signal.from
            &&& reason == signal.reason
        }),
{
    let child = before.state.by_actor@[signal.from]@;
    super::scope::lemma_first_place(before.state.specs@, child);
    assert(super::scope::has_spec(before.state.specs@, child));
}

/// The exit of a linked actor that is no child ends the supervisor with the reason of that exit,
/// the running children first; a supervisor that is ending already is not disturbed.
pub proof fn lemma_the_exit_of_a_stranger_ends_the_supervisor<S>(
    before: SupervisorActor<S>,
    after: SupervisorActor<S>,
    signal: ExitSignal,
    step: SupervisorStep,
)
    requires
        !before.state.by_actor@.contains_key(signal.from),
        after.handled_exit(before, signal, step),
    ensures
        step.notices@.len() == 0,
        before.state.action matches Some(SupervisorAction::Shutdown(_)) ==> step.request
            == SupervisorRequest::Finish(ActorTurn::Continue) && after == before,
        !(before.state.action matches Some(SupervisorAction::Shutdown(_))) ==> {
            let queue = super::state::all_running_reversed(
                after.state.specs@,
                after.state.running@,
            );
            if queue.len() == 0 {
                step.request == SupervisorRequest::Finish(ActorTurn::Stop(signal.reason))
            } else {
                &&& step.request matches SupervisorRequest::ShutdownChild { actor, .. }
                &&& actor == after.state.running@[queue[0]@]
                &&& after.wait matches SupervisorWait::Shutdown { plan, .. }
                &&& plan.final_reason == signal.reason
            }
        },
{
}

/// A child that exits during a restart although nobody asked it to ends the supervisor, with an
/// error that names the child.
pub proof fn lemma_a_stray_exit_ends_a_restart<S>(
    before: SupervisorActor<S>,
    after: SupervisorActor<S>,
    signal: ExitSignal,
    step: SupervisorStep,
)
    requires
        before.state.by_actor@.contains_key(signal.from),
        before.state.action matches Some(SupervisorAction::Restart(plan)) && {
            let child = before.state.by_actor@[signal.from]@;
            &&& plan.active_shutdown matches Some(active) ==> active@ != child
            &&& forall|i: int|
                0 <= i < plan.shutdown_queue@.len() ==> (#[trigger] plan.shutdown_queue@[i])@
                    != child
        },
        super::state::all_running_reversed(after.state.specs@, after.state.running@).len() == 0,
        after.handled_exit(before, signal, step),
    ensures
        step.request matches SupervisorRequest::Finish(ActorTurn::Stop(ExitReason::Error(text)))
            && text@ == "child `"@ + before.state.by_actor@[signal.from]@
            + "` exited while a restart was in progress"@,
{
    if let Some(SupervisorAction::Restart(plan)) = before.state.action {
        super::plan::lemma_queue_place(
            plan.shutdown_queue@,
            before.state.by_actor@[signal.from]@,
        );
    }
}

/// A restart asks first whether it is within the limits; a request that names no child with a spec
/// is no restart.
pub proof fn lemma_a_restart_is_counted_first<S>(
    supervisor: SupervisorActor<S>,
    request: SupervisorRequest,
    requested: Seq<&'static str>,
    failed: Option<(&'static str, ActorId)>,
)
    requires
        supervisor.begins_restart(request, requested, failed),
    ensures
        (exists|i: int, k: int|
            0 <= i < requested.len() && 0 <= k < supervisor.state.specs@.len() && (
            #[trigger] requested[i])@ == (#[trigger] supervisor.state.specs@[k]).id@)
            ==> request is CountRestart,
        requested.len() == 0 || supervisor.state.specs@.len() == 0 ==> request
            == SupervisorRequest::Finish(ActorTurn::Continue),
{
    let specs = supervisor.state.specs@;
    let ids = super::scope::ids(specs);
    let children = super::state::in_start_order(specs, requested);
    let keep = |id: &'static str| super::state::mentions(requested, id@);
    if exists|i: int, k: int|
        0 <= i < requested.len() && 0 <= k < specs.len() && (#[trigger] requested[i])@ == (
        #[trigger] specs[k]).id@ {
        let (i, k) = choose|i: int, k: int|
            0 <= i < requested.len() && 0 <= k < specs.len() && (#[trigger] requested[i])@ == (
            #[trigger] specs[k]).id@;
        assert(ids[k] == specs[k].id);
        assert(keep(ids[k]));
        super::laws::lemma_filter_lets_through(ids, keep, k);
    }
    if requested.len() == 0 || specs.len() == 0 {
        if children.len() > 0 {
            super::laws::lemma_filter_takes_from(ids, keep, 0);
        }
    }
}

/// A restart first stops what runs, then starts; when a child is gone that nobody asked to stop,
/// it does neither.
pub proof fn lemma_what_comes_next_in_a_restart(
    queue: Seq<&'static str>,
    running: Map<Seq<char>, ActorId>,
)
    ensures
        queue.len() == 0 ==> super::machine::restart_next(queue, running) is Start,
        queue.len() > 0 && running.contains_key(queue[0]@) ==> super::machine::restart_next(
            queue,
            running,
        ) == RestartNext::Stop(queue),
        queue.len() > 0 && !running.contains_key(queue[0]@) && (forall|i: int|
            1 <= i < queue.len() ==> (#[trigger] queue[i])@ != queue[0]@)
            ==> super::machine::restart_next(queue, running) == RestartNext::Stray(queue[0]),
{
    if queue.len() > 0 && !running.contains_key(queue[0]@) && (forall|i: int|
        1 <= i < queue.len() ==> (#[trigger] queue[i])@ != queue[0]@) {
        let rest = queue.drop_first();
        super::plan::lemma_queue_place(rest, queue[0]@);
        let place = super::plan::queue_place(rest, queue[0]@) as int;
        if place < rest.len() {
            assert(rest[place] == queue[place + 1]);
        }
    }
}

/// A shutdown passes over the children that no longer run.
pub proof fn lemma_a_shutdown_passes_over_what_is_gone(
    queue: Seq<&'static str>,
    running: Map<Seq<char>, ActorId>,
)
    requires
        forall|i: int, j: int|
            0 <= i < j < queue.len() ==> (#[trigger] queue[i])@ != (#[trigger] queue[j])@,
    ensures
        queue.len() > 0 && running.contains_key(queue[0]@) ==> super::machine::settled(
            queue,
            running,
        ) == queue,
        queue.len() > 0 && !running.contains_key(queue[0]@) ==> super::machine::settled(
            queue,
            running,
        ) == super::machine::settled(queue.drop_first(), running),
        queue.len() == 0 ==> super::machine::settled(queue, running).len() == 0,
{
    if queue.len() > 0 && !running.contains_key(queue[0]@) {
        let rest = queue.drop_first();
        super::plan::lemma_queue_place(rest, queue[0]@);
        let place = super::plan::queue_place(rest, queue[0]@) as int;
        if place < rest.len() {
            assert(rest[place] == queue[place + 1]);
        }
        assert(super::plan::without(rest, queue[0]@) == rest);
    }
}

/// A child leaves a queue alone, and the others keep their order.
pub proof fn lemma_one_child_leaves_a_queue(queue: Seq<&'static str>, child: Seq<char>, at: int)
    requires
        0 <= at < queue.len(),
        queue[at]@ == child,
        forall|i: int| 0 <= i < at ==> (#[trigger] queue[i])@ != child,
    ensures
        super::plan::without(queue, child) == queue.take(at) + queue.skip(at + 1),
{
    super::plan::lemma_queue_place(queue, child);
    let place = super::plan::queue_place(queue, child) as int;
    if place < at {
        assert(queue[place]@ != child);
    }
    if at < place {
        assert(queue[at]@ != child);
    }
    assert(queue.remove(at) =~= queue.take(at) + queue.skip(at + 1));
}

/// Why a supervisor fails, in words: which child could not be started, and why.
pub proof fn lemma_what_failures_of_children_say(
    child: &'static str,
    started: &'static str,
    cause: ExitReason,
    reason: ExitReason,
)
    ensures
        super::machine::startup_failure(child@, StartChildError::InitFailed(cause), reason)
            <==> reason == cause,
        super::machine::startup_failure(child@, StartChildError::SpawnRejected, reason)
            ==> reason is Error && reason->Error_0@ == "supervisor rejected child spawn for `"@
            + child@ + "`"@,
        super::machine::startup_failure(
            child@,
            StartChildError::AlreadyStarted(started),
            reason,
        ) ==> reason is Error && reason->Error_0@ == "supervisor child `"@ + started@
            + "` is already running"@,
        super::machine::restart_failed_text(child@, StartChildError::SpawnRejected)
            == "failed to restart child `"@ + child@ + "`: "@ + "spawn rejected"@,
        super::machine::restart_failed_text(child@, StartChildError::AlreadyStarted(started))
            == "failed to restart child `"@ + child@ + "`: "@ + ("child `"@ + started@
            + "` already started"@),
        super::machine::restart_failed_text(child@, StartChildError::InitFailed(cause))
            == "failed to restart child `"@ + child@ + "`: "@ + ("init failed: "@
            + cause.debug()),
        super::machine::unknown_child_text(child@) == "unknown child spec `"@ + child@ + "`"@,
{
}

/// What the runtime knows of the children of a supervisor: a snapshot names every child by its
/// spec, with the actor that it runs as, if it runs.
pub proof fn lemma_what_a_snapshot_says_of_children(
    specs: Seq<ChildSpec>,
    running: Map<Seq<char>, ActorId>,
    at: int,
)
    requires
        0 <= at < specs.len(),
    ensures
        ({
            let children = crate::internal::supervisor_state::child_snapshots(specs, running);
            &&& children.len() == specs.len()
            &&& children[at].spec == specs[at]
            &&& children[at].actor is Some <==> running.contains_key(specs[at].id@)
            &&& children[at].actor is Some ==> children[at].actor->0 == running[specs[at].id@]
        }),
{
}

/// A child is known to run no longer exactly when the actor that exited is the one that it runs
/// as, and new specs keep the children that they name.
pub proof fn lemma_which_children_are_known_to_run(
    running: Map<Seq<char>, ActorId>,
    specs: Seq<ChildSpec>,
    child: Seq<char>,
    actor: ActorId,
    other: Seq<char>,
)
    ensures
        ({
            let left = crate::internal::supervisor_state::cleared(running, child, actor);
            &&& running.contains_key(child) && running[child] == actor ==> !left.contains_key(child)
            &&& running.contains_key(child) && running[child] != actor ==> left == running
            &&& other != child ==> left.contains_key(other) == running.contains_key(other)
            &&& other != child && running.contains_key(other) ==> left[other] == running[other]
        }),
        ({
            let kept = crate::internal::supervisor_state::with_specs(running, specs);
            &&& kept.contains_key(child) <==> running.contains_key(child) && (exists|i: int|
                0 <= i < specs.len() && (#[trigger] specs[i]).id@ == child)
            &&& kept.contains_key(child) ==> kept[child] == running[child]
        }),
{
}

/// A supervisor that ends because of an error stops its running children first, the one started
/// last first and by its own policy, and then stops with that error; when none runs, at once.
pub proof fn lemma_how_an_error_ends_a_supervisor<S>(
    supervisor: SupervisorActor<S>,
    request: SupervisorRequest,
    detail: Seq<char>,
)
    requires
        supervisor.stops_all_with(request, detail),
    ensures
        ({
            let queue = super::state::all_running_reversed(
                supervisor.state.specs@,
                supervisor.state.running@,
            );
            if queue.len() == 0 {
                request matches SupervisorRequest::Finish(ActorTurn::Stop(ExitReason::Error(text)))
                    && text@ == detail
            } else {
                &&& request == (SupervisorRequest::ShutdownChild {
                    actor: supervisor.state.running@[queue[0]@],
                    policy: supervisor.spec_of(queue[0]@).shutdown,
                })
                &&& supervisor.wait matches SupervisorWait::Shutdown { plan, .. }
                &&& plan.final_reason is Error
                &&& plan.final_reason->Error_0@ == detail
                &&& plan.shutdown_queue@ == queue.drop_first()
            }
        }),
{
}

/// The spec by which a child is started and stopped is the one with its id.
pub proof fn lemma_a_child_goes_by_its_own_spec<S>(supervisor: SupervisorActor<S>, at: int)
    requires
        super::runs::children_distinct(supervisor.state.specs@),
        0 <= at < supervisor.state.specs@.len(),
    ensures
        supervisor.spec_of(supervisor.state.specs@[at].id@) == supervisor.state.specs@[at],
{
    let specs = supervisor.state.specs@;
    super::scope::lemma_first_place(specs, specs[at].id@);
    let first = super::scope::first_place(specs, specs[at].id@) as int;
    assert(super::scope::has_spec(specs, specs[at].id@));
    if first < at {
        assert(specs[first].id@ != specs[at].id@);
    }
}

/// A restart starts the children of its queue one by one, each by its spec; a child that runs
/// already ends the restart with an error; and when the queue is empty the supervisor goes on.
pub proof fn lemma_how_a_restart_starts_children<S>(
    supervisor: SupervisorActor<S>,
    request: SupervisorRequest,
    queue: Seq<&'static str>,
    old_children: Map<Seq<char>, Option<ActorId>>,
)
    requires
        supervisor.starts(request, queue, old_children),
    ensures
        queue.len() == 0 ==> request == SupervisorRequest::Finish(ActorTurn::Continue),
        queue.len() > 0 && supervisor.state.running@.contains_key(queue[0]@)
            ==> supervisor.stops_all_with(
            request,
            "failed to restart child `"@ + queue[0]@ + "`: "@ + ("child `"@ + queue[0]@
                + "` already started"@),
        ),
        queue.len() > 0 && !supervisor.state.running@.contains_key(queue[0]@) && (exists|i: int|
            0 <= i < supervisor.state.specs@.len() && (
            #[trigger] supervisor.state.specs@[i]).id@ == queue[0]@) ==> request
            == SupervisorRequest::StartChild(supervisor.spec_of(queue[0]@)),
{
}

/// A restart that must stop children first stops the running one in front, by its own policy, and
/// keeps in mind what to start afterwards and as which actors the children ran.
pub proof fn lemma_how_a_restart_stops_children<S>(
    supervisor: SupervisorActor<S>,
    request: SupervisorRequest,
    queue: Seq<&'static str>,
    restart_queue: Seq<&'static str>,
    old_children: Map<Seq<char>, Option<ActorId>>,
)
    requires
        supervisor.restarts(request, queue, restart_queue, old_children),
    ensures
        queue.len() == 0 ==> supervisor.starts(request, restart_queue, old_children),
        queue.len() > 0 && supervisor.state.running@.contains_key(queue[0]@) ==> {
            &&& request == (SupervisorRequest::ShutdownChild {
                actor: supervisor.state.running@[queue[0]@],
                policy: supervisor.spec_of(queue[0]@).shutdown,
            })
            &&& supervisor.wait matches SupervisorWait::RestartShutdown { plan, .. }
            &&& plan.shutdown_queue@ == queue.drop_first()
            &&& plan.restart_queue@ == restart_queue
            &&& plan.old_children@ == old_children
        },
{
}

/// During a shutdown the exit of the child that was asked to stop leads to the next one in the
/// queue, and the reason with which the supervisor ends stays the same.
pub proof fn lemma_a_shutdown_goes_on_after_an_exit<S>(
    before: SupervisorActor<S>,
    after: SupervisorActor<S>,
    signal: ExitSignal,
    step: SupervisorStep,
)
    requires
        before.state.by_actor@.contains_key(signal.from),
        after.handled_exit(before, signal, step),
        before.state.action matches Some(SupervisorAction::Shutdown(plan)) && {
            &&& plan.active_child matches Some(active) && active@ == before.state.by_actor@[
                signal.from
            ]@
            &&& plan.shutdown_queue@.len() == 0 || after.state.running@.contains_key(
                plan.shutdown_queue@[0]@,
            )
        },
    ensures
        before.state.action matches Some(SupervisorAction::Shutdown(plan)) ==> {
            &&& plan.shutdown_queue@.len() == 0 ==> step.request == SupervisorRequest::Finish(
                ActorTurn::Stop(plan.final_reason),
            )
            &&& plan.shutdown_queue@.len() > 0 ==> (step.request matches SupervisorRequest::ShutdownChild {
                actor,
                ..
            } && actor == after.state.running@[plan.shutdown_queue@[0]@])
        },
{
}

/// A supervisor without running children has nothing to stop.
pub proof fn lemma_nothing_runs_nothing_stops(
    specs: Seq<ChildSpec>,
    running: Map<Seq<char>, ActorId>,
)
    requires
        forall|child: Seq<char>| !#[trigger] running.contains_key(child),
    ensures
        super::state::all_running_reversed(specs, running).len() == 0,
{
    let queue = super::state::all_running_reversed(specs, running);
    if queue.len() > 0 {
        super::laws::lemma_filter_takes_from(
            super::scope::ids(specs).reverse(),
            |id: &'static str| running.contains_key(id@),
            0,
        );
    }
}

} // verus!
