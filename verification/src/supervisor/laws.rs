//! In which order a supervisor stops and starts its children.

use vstd::prelude::*;

use crate::types::{ActorId, ChildSpec};

use super::machine::SupervisorActor;

verus! {

/// What passes a filter is in the order in which it was.
pub(crate) proof fn lemma_filter_keeps_order<A>(items: Seq<A>, keep: spec_fn(A) -> bool, i: int, j: int)
    requires
        0 <= i < j < items.filter(keep).len(),
    ensures
        exists|p: int, q: int|
            0 <= p < q < items.len() && #[trigger] items[p] == items.filter(keep)[i]
                && #[trigger] items[q] == items.filter(keep)[j],
    decreases items.len(),
{
    reveal(Seq::filter);
    let front = items.drop_last();
    let last = items.len() - 1;
    let passed = front.filter(keep);
    if keep(items.last()) {
        assert(items.filter(keep) == passed.push(items.last()));
        if j < passed.len() {
            lemma_filter_keeps_order(front, keep, i, j);
            let (p, q) = choose|p: int, q: int|
                0 <= p < q < front.len() && #[trigger] front[p] == passed[i]
                    && #[trigger] front[q] == passed[j];
            assert(items[p] == front[p] && items[q] == front[q]);
        } else {
            lemma_filter_takes_from(front, keep, i);
            let p = choose|p: int| 0 <= p < front.len() && #[trigger] front[p] == passed[i];
            assert(items[p] == front[p] && items[last] == items.last());
        }
    } else {
        assert(items.filter(keep) == passed);
        lemma_filter_keeps_order(front, keep, i, j);
        let (p, q) = choose|p: int, q: int|
            0 <= p < q < front.len() && #[trigger] front[p] == passed[i]
                && #[trigger] front[q] == passed[j];
        assert(items[p] == front[p] && items[q] == front[q]);
    }
}

/// What passes a filter was there before, and satisfies it.
pub(crate) proof fn lemma_filter_takes_from<A>(items: Seq<A>, keep: spec_fn(A) -> bool, i: int)
    requires
        0 <= i < items.filter(keep).len(),
    ensures
        exists|p: int| 0 <= p < items.len() && #[trigger] items[p] == items.filter(keep)[i],
        keep(items.filter(keep)[i]),
    decreases items.len(),
{
    reveal(Seq::filter);
    let front = items.drop_last();
    let passed = front.filter(keep);
    if keep(items.last()) && i == passed.len() {
        assert(items[items.len() - 1] == items.filter(keep)[i]);
    } else {
        lemma_filter_takes_from(front, keep, i);
        let p = choose|p: int| 0 <= p < front.len() && #[trigger] front[p] == passed[i];
        assert(items[p] == front[p]);
    }
}

/// What satisfies a filter passes it.
pub(crate) proof fn lemma_filter_lets_through<A>(items: Seq<A>, keep: spec_fn(A) -> bool, p: int)
    requires
        0 <= p < items.len(),
        keep(items[p]),
    ensures
        items.filter(keep).contains(items[p]),
    decreases items.len(),
{
    reveal(Seq::filter);
    let front = items.drop_last();
    let passed = front.filter(keep);
    if p == items.len() - 1 {
        assert(items.filter(keep)[passed.len() as int] == items[p]);
    } else {
        lemma_filter_lets_through(front, keep, p);
        let i = choose|i: int| 0 <= i < passed.len() && passed[i] == front[p];
        assert(items.filter(keep)[i] == items[p]);
    }
}

/// A supervisor that stops stops each running child after all those that were started later.
pub proof fn lemma_children_stop_in_reverse_order(
    specs: Seq<ChildSpec>,
    running: Map<Seq<char>, ActorId>,
    i: int,
    j: int,
)
    requires
        0 <= i < j < super::state::all_running_reversed(specs, running).len(),
    ensures
        exists|p: int, q: int|
            0 <= q < p < specs.len() && (#[trigger] specs[p]).id
                == super::state::all_running_reversed(specs, running)[i] && (
            #[trigger] specs[q]).id == super::state::all_running_reversed(specs, running)[j],
{
    let all = super::scope::ids(specs).reverse();
    let keep = |id: &'static str| running.contains_key(id@);
    let queue = super::state::all_running_reversed(specs, running);
    lemma_filter_keeps_order(all, keep, i, j);
    let (p, q) = choose|p: int, q: int|
        0 <= p < q < all.len() && #[trigger] all[p] == queue[i] && #[trigger] all[q] == queue[j];
    let n = specs.len() - 1;
    assert(specs[n - p].id == all[p] && specs[n - q].id == all[q]);
}

/// A supervisor that stops stops every running child of which it has a spec, and no other one.
pub proof fn lemma_all_running_children_stop(
    specs: Seq<ChildSpec>,
    running: Map<Seq<char>, ActorId>,
    child: Seq<char>,
)
    ensures
        super::state::mentions(super::state::all_running_reversed(specs, running), child)
            == (running.contains_key(child) && super::state::mentions(
            super::scope::ids(specs),
            child,
        )),
{
    let ids = super::scope::ids(specs);
    let all = ids.reverse();
    let keep = |id: &'static str| running.contains_key(id@);
    let queue = super::state::all_running_reversed(specs, running);
    if super::state::mentions(queue, child) {
        let i = choose|i: int| 0 <= i < queue.len() && (#[trigger] queue[i])@ == child;
        lemma_filter_takes_from(all, keep, i);
        let p = choose|p: int| 0 <= p < all.len() && #[trigger] all[p] == queue[i];
        assert(ids[ids.len() - 1 - p]@ == child);
    }
    if running.contains_key(child) && super::state::mentions(ids, child) {
        let k = choose|k: int| 0 <= k < ids.len() && (#[trigger] ids[k])@ == child;
        let p = ids.len() - 1 - k;
        assert(all[p] == ids[k]);
        assert(keep(all[p]));
        lemma_filter_lets_through(all, keep, p);
        let i = choose|i: int| 0 <= i < queue.len() && queue[i] == all[p];
        assert(queue[i]@ == child);
    }
}

/// Children are started again in the order in which they were started at first.
pub proof fn lemma_children_restart_in_order(
    specs: Seq<ChildSpec>,
    requested: Seq<&'static str>,
    i: int,
    j: int,
)
    requires
        0 <= i < j < super::state::in_start_order(specs, requested).len(),
    ensures
        exists|p: int, q: int|
            0 <= p < q < specs.len() && (#[trigger] specs[p]).id == super::state::in_start_order(
                specs,
                requested,
            )[i] && (#[trigger] specs[q]).id == super::state::in_start_order(specs, requested)[j],
{
    let ids = super::scope::ids(specs);
    let keep = |id: &'static str| super::state::mentions(requested, id@);
    let queue = super::state::in_start_order(specs, requested);
    lemma_filter_keeps_order(ids, keep, i, j);
    let (p, q) = choose|p: int, q: int|
        0 <= p < q < ids.len() && #[trigger] ids[p] == queue[i] && #[trigger] ids[q] == queue[j];
    assert(specs[p].id == ids[p] && specs[q].id == ids[q]);
}

/// Exactly the requested children of which there is a spec are started again.
pub proof fn lemma_requested_children_restart(
    specs: Seq<ChildSpec>,
    requested: Seq<&'static str>,
    child: Seq<char>,
)
    ensures
        super::state::mentions(super::state::in_start_order(specs, requested), child)
            == (super::state::mentions(requested, child) && super::state::mentions(
            super::scope::ids(specs),
            child,
        )),
{
    let ids = super::scope::ids(specs);
    let keep = |id: &'static str| super::state::mentions(requested, id@);
    let queue = super::state::in_start_order(specs, requested);
    if super::state::mentions(queue, child) {
        let i = choose|i: int| 0 <= i < queue.len() && (#[trigger] queue[i])@ == child;
        lemma_filter_takes_from(ids, keep, i);
        let p = choose|p: int| 0 <= p < ids.len() && #[trigger] ids[p] == queue[i];
        assert(ids[p]@ == child);
    }
    if super::state::mentions(requested, child) && super::state::mentions(ids, child) {
        let p = choose|p: int| 0 <= p < ids.len() && (#[trigger] ids[p])@ == child;
        assert(keep(ids[p]));
        lemma_filter_lets_through(ids, keep, p);
        let i = choose|i: int| 0 <= i < queue.len() && queue[i] == ids[p];
        assert(queue[i]@ == child);
    }
}

/// The running children and the actors that are tracked stay two sides of one relation: when
/// nothing changes, when an actor is forgotten, and when a child that does not run starts as an
/// actor that is not tracked.
pub proof fn lemma_children_stay_paired<S>(
    before: SupervisorActor<S>,
    after: SupervisorActor<S>,
    child_id: &'static str,
    actor: ActorId,
)
    requires
        before.state.paired(),
        ({
            ||| after.same_children(before)
            ||| after.forgot(before, actor)
            ||| {
                &&& !before.state.running@.contains_key(child_id@)
                &&& !before.state.by_actor@.contains_key(actor)
                &&& after.state.running@ == before.state.running@.insert(child_id@, actor)
                &&& after.state.by_actor@ == before.state.by_actor@.insert(actor, child_id)
            }
        }),
    ensures
        after.state.paired(),
{
    assert forall|child: Seq<char>| #[trigger] after.state.running@.contains_key(child) implies
        after.state.by_actor@.contains_key(after.state.running@[child])
        && after.state.by_actor@[after.state.running@[child]]@ == child by {
        assert(child == child_id@ || before.state.running@.contains_key(child));
    }
    assert forall|other: ActorId| #[trigger] after.state.by_actor@.contains_key(other) implies
        after.state.running@.contains_key(after.state.by_actor@[other]@)
        && after.state.running@[after.state.by_actor@[other]@] == other by {
        assert(other == actor || before.state.by_actor@.contains_key(other));
    }
}

} // verus!
