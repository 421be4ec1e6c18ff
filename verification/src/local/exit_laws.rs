//! What an exit on the single-threaded runtime comes to for everybody that hears of it.

use vstd::prelude::*;

use crate::envelope::{DownMessage, Envelope, ExitSignal};
use crate::lifecycle::LifecycleView;
use crate::observability::events::KindView;
use crate::runtime::actor_state::ActorView;
use crate::runtime::state::StateView;
use crate::types::{ActorId, ExitReason, Ref};

use super::frame::{LeavingView, StageView};
use super::spec::LocalView;

verus! {

/// The way of an actor out of the runtime: the runtime each time the actor is on top of the stack,
/// and the runtime after each of its steps. Between two of its steps others may leave.
pub struct LeavingRun {
    /// The runtime before each step, and after the last one.
    pub before: Seq<LocalView>,
    /// The runtime right after each step.
    pub after: Seq<LocalView>,
}

impl LeavingRun {
    /// What is left to do for the actor before a step.
    pub open spec fn todo(self, k: int) -> LeavingView {
        self.before[k].top().stage->Leaving_0
    }

    /// Whether the run begins when the termination hook of the actor on top of the stack is over,
    /// and goes on step by step while there is somebody left to tell.
    pub open spec fn follows(self, start: LocalView, reason: ExitReason) -> bool {
        &&& start.stack.len() > 0
        &&& self.before.len() == self.after.len() + 1
        &&& self.before[0] == start.terminated(reason)
        &&& forall|k: int| 0 <= k < self.after.len() ==> self.goes_on(start, k)
    }

    /// Whether a step of the run leads to the next one.
    pub open spec fn goes_on(self, start: LocalView, k: int) -> bool {
        let depth = start.stack.len();
        let todo = self.todo(k);
        &&& self.before[k].stack.len() == depth
        &&& self.before[k].top().stage is Leaving
        &&& todo.owed is Some || todo.watchers.len() > 0 || todo.links.len() > 0
        &&& self.before[k].leave_step(todo, self.after[k])
        &&& self.before[k + 1].stack.len() == depth
        &&& self.before[k + 1].top() == self.after[k].stack[depth - 1]
    }
}

/// The reason that the links of an actor see when it exits: its own, unless it was killed because
/// of a shutdown that somebody had asked for.
spec fn seen_by_links(actor: ActorView, reason: ExitReason) -> ExitReason {
    if reason is Kill && actor.shutdown is Some {
        ExitReason::Shutdown
    } else {
        reason
    }
}

/// Whether a run has come as far as it should after a number of steps.
spec fn on_the_way(start: LocalView, reason: ExitReason, now: LocalView) -> bool {
    let actor = start.top().actor;
    let watchers = crate::collections::ascending_pairs(actor.monitors_in);
    let links = crate::collections::ascending(actor.links);
    &&& now.stack.len() == start.stack.len()
    &&& now.top().actor == actor
    &&& now.top().stage matches StageView::Leaving(todo)
    &&& todo.reason == reason
    &&& todo.linked_reason == seen_by_links(actor, reason)
    &&& todo.watchers.len() <= watchers.len()
    &&& todo.watchers == watchers.skip(watchers.len() - todo.watchers.len())
    &&& todo.links.len() <= links.len()
    &&& todo.links == links.skip(links.len() - todo.links.len())
}

/// What is left of the frame of an actor that leaves after one of its steps.
proof fn lemma_one_step(before: LocalView, todo: LeavingView, after: LocalView)
    requires
        before.stack.len() > 0,
        before.top().stage == StageView::Leaving(todo),
        todo.owed is Some || todo.watchers.len() > 0 || todo.links.len() > 0,
        before.leave_step(todo, after),
    ensures
        after.stack.len() >= before.stack.len(),
        ({
            let frame = after.stack[before.stack.len() - 1];
            &&& frame.actor == before.top().actor
            &&& frame.stage matches StageView::Leaving(left)
            &&& left.reason == todo.reason
            &&& left.linked_reason == todo.linked_reason
            &&& if todo.owed is Some {
                left.watchers == todo.watchers && left.links == todo.links
            } else if todo.watchers.len() > 0 {
                left.watchers == todo.watchers.drop_first() && left.links == todo.links
            } else {
                left.watchers == todo.watchers && left.links == todo.links.drop_first()
            }
        }),
{
}

proof fn lemma_run_is_on_the_way(run: LeavingRun, start: LocalView, reason: ExitReason, k: nat)
    requires
        run.follows(start, reason),
        k <= run.after.len(),
    ensures
        on_the_way(start, reason, run.before[k as int]),
    decreases k,
{
    let actor = start.top().actor;
    let watchers = crate::collections::ascending_pairs(actor.monitors_in);
    let links = crate::collections::ascending(actor.links);
    if k == 0 {
        assert(watchers.skip(0) =~= watchers);
        assert(links.skip(0) =~= links);
    } else {
        lemma_run_is_on_the_way(run, start, reason, (k - 1) as nat);
        assert(run.goes_on(start, k - 1));
        let todo = run.todo(k - 1);
        lemma_one_step(run.before[k - 1], todo, run.after[k - 1]);
        assert(todo.watchers.len() > 0 ==> todo.watchers.drop_first() =~= watchers.skip(
            watchers.len() - todo.watchers.len() + 1,
        ));
        assert(todo.links.len() > 0 ==> todo.links.drop_first() =~= links.skip(
            links.len() - todo.links.len() + 1,
        ));
    }
}

proof fn lemma_watcher_has_its_step(
    run: LeavingRun,
    start: LocalView,
    reason: ExitReason,
    n: nat,
    left: nat,
) -> (k: int)
    requires
        run.follows(start, reason),
        n <= run.after.len(),
        run.todo(n as int).watchers.len() < left <= crate::collections::ascending_pairs(
            start.top().actor.monitors_in,
        ).len(),
    ensures
        0 <= k < n,
        run.todo(k).owed is None,
        run.todo(k).watchers.len() == left,
    decreases n,
{
    lemma_run_is_on_the_way(run, start, reason, 0);
    if n == 0 {
        assert(run.todo(0).watchers.len() == crate::collections::ascending_pairs(
            start.top().actor.monitors_in,
        ).len());
        0
    } else {
        lemma_run_is_on_the_way(run, start, reason, (n - 1) as nat);
        assert(run.goes_on(start, n - 1));
        lemma_one_step(run.before[n - 1], run.todo(n - 1), run.after[n - 1]);
        if run.todo(n - 1).watchers.len() < left {
            lemma_watcher_has_its_step(run, start, reason, (n - 1) as nat, left)
        } else {
            n - 1
        }
    }
}

proof fn lemma_link_has_its_step(
    run: LeavingRun,
    start: LocalView,
    reason: ExitReason,
    n: nat,
    left: nat,
) -> (k: int)
    requires
        run.follows(start, reason),
        n <= run.after.len(),
        run.todo(n as int).links.len() < left <= crate::collections::ascending(
            start.top().actor.links,
        ).len(),
    ensures
        0 <= k < n,
        run.todo(k).owed is None,
        run.todo(k).watchers.len() == 0,
        run.todo(k).links.len() == left,
    decreases n,
{
    lemma_run_is_on_the_way(run, start, reason, 0);
    if n == 0 {
        assert(run.todo(0).links.len() == crate::collections::ascending(
            start.top().actor.links,
        ).len());
        0
    } else {
        lemma_run_is_on_the_way(run, start, reason, (n - 1) as nat);
        assert(run.goes_on(start, n - 1));
        lemma_one_step(run.before[n - 1], run.todo(n - 1), run.after[n - 1]);
        if run.todo(n - 1).links.len() < left {
            lemma_link_has_its_step(run, start, reason, (n - 1) as nat, left)
        } else {
            n - 1
        }
    }
}

/// Whether an actor in its place hears of the end of another one that it watches: behind what its
/// mailbox held comes a notification with the reference, the actor and the reason, and the log
/// tells of it; an actor whose mailbox is full has to exit instead.
pub open spec fn hears_down(
    before: LocalView,
    watcher: ActorId,
    down: DownMessage,
    after: LocalView,
) -> bool {
    let held = before.state.actor(watcher).mailbox;
    if held.capacity != usize::MAX && held.queue.len() >= held.capacity {
        &&& !after.state.has(watcher)
        &&& after.top().actor.id == watcher
        &&& after.top().stage is Condemned
    } else {
        let queue = after.state.actor(watcher).mailbox.queue;
        &&& after.state.has(watcher)
        &&& queue.len() == held.queue.len() + 1
        &&& queue.take(held.queue.len() as int) == held.queue
        &&& queue.last().envelope == Envelope::Down(down)
        &&& after.state.log.len() == before.state.log.len() + 1
        &&& after.state.log.last().kind == KindView::Lifecycle(
            LifecycleView::Down {
                watcher,
                actor: down.actor,
                reference: down.reference,
                reason: down.reason,
            },
        )
    }
}

/// On its way out an actor tells every watcher, under every reference, the reason with which it
/// exits: there is a step at which a watcher in its place gets a notification with that reference,
/// that actor and exactly that reason, or has to exit because its mailbox is full.
pub proof fn lemma_exit_reaches_watchers(
    run: LeavingRun,
    start: LocalView,
    reason: ExitReason,
    reference: Ref,
    watcher: ActorId,
) -> (k: int)
    requires
        run.follows(start, reason),
        start.top().actor.wf(),
        start.top().actor.monitors_in.contains_key(reference),
        start.top().actor.monitors_in[reference] == watcher,
        watcher != start.top().actor.id,
        run.todo(run.after.len() as int).watchers.len() == 0,
    ensures
        0 <= k < run.after.len(),
        run.before[k].state.has(watcher) ==> hears_down(
            run.before[k],
            watcher,
            DownMessage { reference, actor: start.top().actor.id, reason },
            run.after[k],
        ),
{
    let monitors = start.top().actor.monitors_in;
    let watchers = crate::collections::ascending_pairs(monitors);
    crate::collections::lemma_finite_map_is_listed(monitors);
    assert(watchers.contains((reference, watcher)));
    let i = choose|i: int| 0 <= i < watchers.len() && watchers[i] == (reference, watcher);
    let k = lemma_watcher_has_its_step(
        run,
        start,
        reason,
        run.after.len(),
        (watchers.len() - i) as nat,
    );
    lemma_run_is_on_the_way(run, start, reason, k as nat);
    assert(run.goes_on(start, k));
    let before = run.before[k];
    let after = run.after[k];
    let todo = run.todo(k);
    assert(todo.watchers[0] == watchers[i]);
    if before.state.has(watcher) {
        let held = before.state.actor(watcher).mailbox;
        if !(held.capacity != usize::MAX && held.queue.len() >= held.capacity) {
            let queue = after.state.actor(watcher).mailbox.queue;
            assert(queue.take(held.queue.len() as int) =~= held.queue);
        }
    }
    k
}

/// Whether an actor in its place hears of the end of another one that it is linked with, given the
/// reason that it sees. A kill, and every reason but a normal one unless it traps exits, makes it
/// exit with that reason. A normal one leaves it as it was, without the link. What it traps is at
/// the end of its mailbox, unless the mailbox is full.
pub open spec fn hears_exit(
    before: LocalView,
    other: ActorId,
    signal: ExitSignal,
    after: LocalView,
) -> bool {
    let was = before.state.actor(other);
    let held = was.mailbox;
    if signal.reason is Kill || (!was.trap_exit && !(signal.reason is Normal)) {
        &&& !after.state.has(other)
        &&& after.top().actor.id == other
        &&& after.top().stage == StageView::Condemned(signal.reason)
    } else if !was.trap_exit {
        &&& after.state.has(other)
        &&& after.state.actor(other) == (ActorView {
            links: was.links.remove(signal.from),
            ..was
        })
        &&& after.stack.len() == before.stack.len()
    } else if held.capacity != usize::MAX && held.queue.len() >= held.capacity {
        &&& !after.state.has(other)
        &&& after.top().actor.id == other
        &&& after.top().stage is Condemned
    } else {
        let queue = after.state.actor(other).mailbox.queue;
        &&& after.state.has(other)
        &&& queue.len() == held.queue.len() + 1
        &&& queue.take(held.queue.len() as int) == held.queue
        &&& queue.last().envelope == Envelope::Exit(signal)
        &&& after.stack.len() == before.stack.len()
    }
}

/// On its way out an actor tells every actor that it is linked with the reason with which it
/// exits, whether or not somebody had asked it to shut down; only the kill that ends a shutdown is
/// told as a shutdown.
pub proof fn lemma_exit_reaches_linked_actors(
    run: LeavingRun,
    start: LocalView,
    reason: ExitReason,
    other: ActorId,
) -> (k: int)
    requires
        run.follows(start, reason),
        start.top().actor.wf(),
        start.top().actor.links.contains(other),
        other != start.top().actor.id,
        run.todo(run.after.len() as int).links.len() == 0,
    ensures
        0 <= k < run.after.len(),
        run.before[k].state.has(other) && !(reason is Kill) ==> hears_exit(
            run.before[k],
            other,
            ExitSignal { from: start.top().actor.id, reason, linked: true },
            run.after[k],
        ),
        run.before[k].state.has(other) && reason is Kill && start.top().actor.shutdown is None
            ==> hears_exit(
            run.before[k],
            other,
            ExitSignal { from: start.top().actor.id, reason: ExitReason::Kill, linked: true },
            run.after[k],
        ),
        run.before[k].state.has(other) && reason is Kill && start.top().actor.shutdown is Some
            ==> hears_exit(
            run.before[k],
            other,
            ExitSignal { from: start.top().actor.id, reason: ExitReason::Shutdown, linked: true },
            run.after[k],
        ),
{
    let all = start.top().actor.links;
    let links = crate::collections::ascending(all);
    crate::collections::lemma_finite_set_is_listed(all);
    assert(links.contains(other));
    let i = choose|i: int| 0 <= i < links.len() && links[i] == other;
    let k = lemma_link_has_its_step(
        run,
        start,
        reason,
        run.after.len(),
        (links.len() - i) as nat,
    );
    lemma_run_is_on_the_way(run, start, reason, k as nat);
    assert(run.goes_on(start, k));
    let before = run.before[k];
    let after = run.after[k];
    let todo = run.todo(k);
    assert(todo.links[0] == links[i]);
    if before.state.has(other) {
        let held = before.state.actor(other).mailbox;
        let queue = after.state.actor(other).mailbox.queue;
        if after.state.has(other) && queue.len() > held.queue.len() {
            assert(queue.take(held.queue.len() as int) =~= held.queue);
        }
    }
    k
}

/// Whether an actor that is in its place afterwards was there before, and still holds what its
/// mailbox held, in the same order.
spec fn keeps_mail(before: LocalView, after: LocalView, other: ActorId) -> bool {
    after.state.has(other) ==> {
        let held = before.state.actor(other).mailbox.queue;
        let queue = after.state.actor(other).mailbox.queue;
        before.state.has(other) && queue.len() >= held.len() && queue.take(held.len() as int)
            == held
    }
}

proof fn lemma_keeping_twice(first: LocalView, second: LocalView, third: LocalView, other: ActorId)
    requires
        keeps_mail(first, second, other),
        keeps_mail(second, third, other),
    ensures
        keeps_mail(first, third, other),
{
    if third.state.has(other) {
        let held = first.state.actor(other).mailbox.queue;
        let middle = second.state.actor(other).mailbox.queue;
        let queue = third.state.actor(other).mailbox.queue;
        assert(queue.take(held.len() as int) =~= queue.take(middle.len() as int).take(
            held.len() as int,
        ));
    }
}

proof fn lemma_same_mail(before: LocalView, after: LocalView, other: ActorId)
    requires
        after.state.has(other) ==> before.state.has(other) && after.state.actor(other).mailbox
            == before.state.actor(other).mailbox,
    ensures
        keeps_mail(before, after, other),
{
    let held = before.state.actor(other).mailbox.queue;
    assert(held.take(held.len() as int) =~= held);
}

proof fn lemma_delivery_takes_no_mail(
    before: LocalView,
    to: ActorId,
    envelope: Envelope,
    other: ActorId,
)
    ensures
        keeps_mail(before, before.pushed(to, envelope), other),
        keeps_mail(before, before.sent(to, envelope), other),
{
    let held = before.state.actor(other).mailbox.queue;
    assert(held.take(held.len() as int) =~= held);
    let pushed = before.pushed(to, envelope).state.actor(other).mailbox.queue;
    let sent = before.sent(to, envelope).state.actor(other).mailbox.queue;
    if pushed.len() > held.len() {
        assert(pushed.take(held.len() as int) =~= held);
    }
    if sent.len() > held.len() {
        assert(sent.take(held.len() as int) =~= held);
    }
}

/// Telling others takes nothing out of a mailbox: what an actor in its place held before a step of
/// an actor that leaves, it holds in the same order afterwards, as long as it is in its place.
pub proof fn lemma_leaving_takes_no_mail(
    before: LocalView,
    todo: LeavingView,
    after: LocalView,
    other: ActorId,
)
    requires
        before.stack.len() > 0,
        before.top().stage == StageView::Leaving(todo),
        before.leave_step(todo, after),
    ensures
        after.state.has(other) ==> {
            let held = before.state.actor(other).mailbox.queue;
            let queue = after.state.actor(other).mailbox.queue;
            before.state.has(other) && queue.len() >= held.len() && queue.take(held.len() as int)
                == held
        },
{
    let actor = before.top().actor.id;
    if todo.owed is None && todo.watchers.len() > 0 {
        let (reference, watcher) = todo.watchers[0];
        if watcher == actor {
            lemma_same_mail(before, after, other);
        } else {
            let freed = before.with_state(before.state.watching_removed(watcher, reference));
            lemma_same_mail(before, freed, other);
            let down = Envelope::Down(
                DownMessage { reference, actor, reason: todo.reason },
            );
            let pushed = freed.pushed(watcher, down);
            lemma_delivery_takes_no_mail(freed, watcher, down, other);
            lemma_keeping_twice(before, freed, pushed, other);
            lemma_same_mail(pushed, after, other);
            lemma_keeping_twice(before, pushed, after, other);
        }
    } else if todo.owed is None && todo.links.len() > 0 {
        let link = todo.links[0];
        let rest = before.left(LeavingView { links: todo.links.drop_first(), ..todo });
        lemma_same_mail(before, rest, other);
        if link != actor {
            let freed = rest.with_state(rest.state.link_removed(link, actor));
            lemma_same_mail(before, freed, other);
            let exit = Envelope::Exit(
                ExitSignal { from: actor, reason: todo.linked_reason, linked: true },
            );
            let sent = freed.sent(link, exit);
            lemma_delivery_takes_no_mail(freed, link, exit, other);
            lemma_keeping_twice(before, freed, sent, other);
            if after.state.has(other) && after.state.actor(other).mailbox
                == freed.state.actor(other).mailbox {
                lemma_same_mail(freed, after, other);
                lemma_keeping_twice(before, freed, after, other);
            } else {
                lemma_same_mail(sent, after, other);
                lemma_keeping_twice(before, sent, after, other);
            }
        }
    } else {
        lemma_same_mail(before, after, other);
    }
}

/// An exit keeps its reason from beginning to end: an actor that has to exit has to exit with that
/// reason, leaves with it, and what is kept of it tells of it. The exit is in the log once, with a
/// crash behind it unless the actor ended normally or because of a shutdown.
pub proof fn lemma_an_exit_keeps_its_reason(
    view: LocalView,
    id: ActorId,
    reason: ExitReason,
    todo: LeavingView,
)
    requires
        view.stack.len() > 0,
        todo.reason == reason,
    ensures
        view.doomed(reason).stack.len() == view.stack.len(),
        view.doomed(reason).top().actor.id == view.top().actor.id,
        view.doomed(reason).top().stage == StageView::Condemned(reason),
        view.doomed(reason).state == view.state,
        view.state.has(id) ==> {
            let after = view.condemned(id, reason);
            &&& after.stack.len() == view.stack.len() + 1
            &&& after.stack.drop_last() == view.stack
            &&& after.top().actor.id == view.state.actor(id).id
            &&& after.top().actor.mailbox == view.state.actor(id).mailbox
            &&& after.top().stage == StageView::Condemned(reason)
            &&& !after.state.has(id)
        },
        view.terminated(reason).top().actor == view.top().actor,
        view.terminated(reason).top().stage->Leaving_0.reason == reason,
        ({
            let gone = view.top().actor;
            let after = view.gone(todo);
            let orderly = reason is Normal || reason is Shutdown;
            let told = after.state.log[after.state.log.len() - (if orderly {
                1int
            } else {
                2
            })];
            let kept = after.state.completed[gone.id];
            &&& after.stack == view.stack.drop_last()
            &&& after.state.completed.contains_key(gone.id)
            &&& kept.id == gone.id && kept.name == gone.name && kept.parent == gone.parent
            &&& kept.status is Dead
            &&& kept.metrics.last_exit == Some(reason)
            &&& kept.metrics.mailbox_len == 0
            &&& kept.registered_name is None
            &&& told.kind == KindView::Lifecycle(
                LifecycleView::Exit {
                    actor: gone.id,
                    name: gone.name,
                    reason,
                    parent: gone.parent,
                    ancestors: gone.ancestors,
                },
            )
            &&& !orderly ==> (after.state.log.last().kind matches KindView::Crash(crash)
                && crash.actor == gone.id && crash.name == gone.name && crash.reason == reason
                && crash.parent == gone.parent && crash.ancestors == gone.ancestors)
            &&& after.state.log.len() == view.state.log.len() + (if orderly {
                1int
            } else {
                2
            }) + (if gone.shutdown is Some {
                1int
            } else {
                0
            })
            &&& after.state.log.take(view.state.log.len() as int) == view.state.log
            &&& gone.shutdown matches Some(tracker) ==> after.state.log[view.state.log.len() as int].kind
                == KindView::Lifecycle(
                LifecycleView::Shutdown {
                    requester: tracker.requester,
                    actor: gone.id,
                    policy: tracker.policy,
                    phase: crate::lifecycle::ShutdownPhase::Completed,
                    reason: Some(reason),
                },
            )
            &&& after.state.actors == view.state.actors
        }),
{
    let after = view.gone(todo);
    assert(after.state.log.take(view.state.log.len() as int) =~= view.state.log);
    if view.state.has(id) {
        assert(view.condemned(id, reason).stack.drop_last() =~= view.stack);
    }
}

/// Dropping the monitors of an actor changes nothing of others but who monitors them.
proof fn lemma_dropping_watches_keeps_the_rest(
    state: StateView,
    actor: ActorId,
    monitoring: Seq<(Ref, ActorId)>,
    other: ActorId,
)
    ensures
        ({
            let after = state.watches_dropped(actor, monitoring);
            &&& after.names == state.names
            &&& after.timers == state.timers
            &&& after.calls == state.calls
            &&& after.log == state.log
            &&& after.has(other) == state.has(other)
            &&& state.has(other) ==> after.actor(other).supervisor == state.actor(other).supervisor
        }),
    decreases monitoring.len(),
{
    if monitoring.len() > 0 {
        let (reference, target) = monitoring.last();
        lemma_dropping_watches_keeps_the_rest(state, actor, monitoring.drop_last(), other);
        lemma_dropping_watches_keeps_the_rest(state, actor, monitoring.drop_last(), target);
    }
}

/// What is left of an actor once its termination hook is over: its name is free, none of its
/// timers and calls is pending, and its supervisor no longer counts it as running.
pub proof fn lemma_what_is_left_of_a_terminated_actor(
    before: LocalView,
    reason: ExitReason,
    reference: Ref,
    name: Seq<char>,
)
    requires
        before.stack.len() > 0,
        crate::registry::names_distinct(before.state.names),
    ensures
        ({
            let id = before.stack.last().actor.id;
            let after = before.terminated(reason).state;
            &&& after.names.contains_key(name) ==> after.names[name] != id
            &&& !after.timers.contains((id, reference))
            &&& !after.calls.contains((id, reference))
            &&& after.log == before.state.log
        }),
{
    let actor = before.stack.last().actor;
    lemma_dropping_watches_keeps_the_rest(
        before.state.released(actor.id).renounced(actor),
        actor.id,
        crate::collections::ascending_pairs(actor.monitors_out),
        actor.id,
    );
    if crate::registry::name_in(before.state.names, actor.id) is Some {
        let held = crate::registry::name_in(before.state.names, actor.id)->0;
        assert(before.state.names.contains_key(held) && before.state.names[held] == actor.id);
        if before.state.names.contains_key(name) && before.state.names[name] == actor.id {
            assert(before.state.names[held] == before.state.names[name]);
        }
    }
}

/// The supervisor of a child whose termination hook is over no longer counts it as running, unless
/// the child runs as another actor by then.
pub proof fn lemma_a_supervisor_loses_a_child_that_exits(
    before: LocalView,
    reason: ExitReason,
    parent: ActorId,
    child: &'static str,
)
    requires
        before.stack.len() > 0,
        crate::runtime::table::table_ok(before.state.actors),
        before.stack.last().actor.parent == Some(parent),
        before.stack.last().actor.supervisor_child == Some(child),
        before.state.has(parent),
        before.state.actor(parent).supervisor is Some,
    ensures
        ({
            let id = before.stack.last().actor.id;
            let was = before.state.actor(parent).supervisor->0.running;
            let now = before.terminated(reason).state.actor(parent).supervisor->0.running;
            &&& before.terminated(reason).state.has(parent)
            &&& was.contains_key(child@) && was[child@] == id ==> now == was.remove(child@)
            &&& was.contains_key(child@) && was[child@] != id ==> now == was
        }),
{
    let actor = before.stack.last().actor;
    lemma_dropping_watches_keeps_the_rest(
        before.state.released(actor.id).renounced(actor),
        actor.id,
        crate::collections::ascending_pairs(actor.monitors_out),
        parent,
    );
}

/// A notification of a watcher is reported with the watcher, the actor, the reference and the
/// reason.
pub proof fn lemma_a_notification_is_reported(
    before: LocalView,
    watch: (Ref, ActorId),
    reason: ExitReason,
)
    ensures
        ({
            let after = before.reported(watch, reason);
            &&& after.state.log.len() == before.state.log.len() + 1
            &&& after.state.log.last().kind == KindView::Lifecycle(
                LifecycleView::Down {
                    watcher: watch.1,
                    actor: before.stack.last().actor.id,
                    reference: watch.0,
                    reason,
                },
            )
            &&& after.state.actors == before.state.actors
            &&& after.stack == before.stack
            &&& after.queue == before.queue
        }),
{
}

/// The watcher whose turn it is hears of the exit with the reference, the actor and exactly the
/// reason with which the actor exits, as the last envelope of its mailbox, and that is reported;
/// when its mailbox is full, it has to exit itself.
pub proof fn lemma_a_watcher_that_is_told_hears_the_reason(
    before: LocalView,
    leaving: LeavingView,
    after: LocalView,
)
    requires
        crate::runtime::table::table_ok(before.state.actors),
        before.stack.len() > 0,
        leaving.owed is None,
        leaving.watchers.len() > 0,
        leaving.watchers[0].1 != before.stack.last().actor.id,
        before.state.has(leaving.watchers[0].1),
        before.leave_step(leaving, after),
    ensures
        ({
            let (reference, watcher) = leaving.watchers[0];
            let actor = before.stack.last().actor.id;
            let was = before.state.actor(watcher).mailbox;
            if super::step_laws::is_full(was) {
                &&& !after.state.has(watcher)
                &&& after.stack.last().actor.id == watcher
                &&& after.stack.last().stage matches StageView::Condemned(reason)
                    && crate::concurrent::turn_laws::overflowed(reason, watcher, "down"@)
            } else {
                &&& after.state.has(watcher)
                &&& super::step_laws::has_got(
                    was,
                    after.state.actor(watcher).mailbox,
                    Envelope::Down(DownMessage { reference, actor, reason: leaving.reason }),
                )
                &&& after.state.log.len() == before.state.log.len() + 1
                &&& after.state.log.last().kind == KindView::Lifecycle(
                    LifecycleView::Down { watcher, actor, reference, reason: leaving.reason },
                )
            }
        }),
{
    let watcher = leaving.watchers[0].1;
    let was = before.state.actor(watcher).mailbox.queue;
    let now = after.state.actor(watcher).mailbox.queue;
    if after.state.has(watcher) && now.len() > was.len() {
        assert(now.drop_last() =~= was);
    }
}

/// The linked actor whose turn it is hears the reason that the actor leaves for its links: it has
/// to exit with it when it is a kill, or when it is not normal and not trapped; it goes on without
/// the link when it is normal and not trapped; and otherwise finds the exit as the last envelope of
/// its mailbox, as long as there is room.
pub proof fn lemma_a_linked_actor_that_is_told_hears_the_reason(
    before: LocalView,
    leaving: LeavingView,
    after: LocalView,
)
    requires
        crate::runtime::table::table_ok(before.state.actors),
        before.stack.len() > 0,
        leaving.owed is None,
        leaving.watchers.len() == 0,
        leaving.links.len() > 0,
        leaving.links[0] != before.stack.last().actor.id,
        before.state.has(leaving.links[0]),
        before.leave_step(leaving, after),
    ensures
        ({
            let other = leaving.links[0];
            let actor = before.stack.last().actor.id;
            let reason = leaving.linked_reason;
            let was = before.state.actor(other);
            if reason is Kill || (!was.trap_exit && !(reason is Normal)) {
                &&& !after.state.has(other)
                &&& after.stack.last().actor.id == other
                &&& after.stack.last().stage == StageView::Condemned(reason)
            } else if !was.trap_exit {
                &&& after.state.has(other)
                &&& after.state.actor(other).mailbox == was.mailbox
                &&& after.state.actor(other).forced_exit == was.forced_exit
                &&& !after.state.actor(other).links.contains(actor)
                &&& after.stack.len() == before.stack.len()
            } else if super::step_laws::is_full(was.mailbox) {
                !after.state.has(other)
            } else {
                &&& after.state.has(other)
                &&& super::step_laws::has_got(
                    was.mailbox,
                    after.state.actor(other).mailbox,
                    Envelope::Exit(ExitSignal { from: actor, reason, linked: true }),
                )
            }
        }),
{
    let other = leaving.links[0];
    let was = before.state.actor(other).mailbox.queue;
    let now = after.state.actor(other).mailbox.queue;
    if after.state.has(other) && now.len() > was.len() {
        assert(now.drop_last() =~= was);
    }
}

} // verus!
