//! Building trees and metrics out of actor snapshots.

use vstd::prelude::*;

use crate::scheduler::{RunQueueSnapshot, SchedulerMetrics};
use crate::snapshot::{ActorSnapshot, SnapshotView};
use crate::time::Timestamp;
use crate::types::{ActorId, ActorStatus};

use super::types::{ActorTree, ActorTreeNode, RuntimeIntrospection, RuntimeMetricsSnapshot};

verus! {

/// What a list of snapshots says.
pub open spec fn snapshot_views(actors: Seq<ActorSnapshot>) -> Seq<SnapshotView> {
    actors.map_values(|actor: ActorSnapshot| actor@)
}

/// Whether no two snapshots are of the same actor.
pub open spec fn distinct_ids(actors: Seq<SnapshotView>) -> bool {
    forall|i: int, j: int|
        0 <= i < j < actors.len() ==> (#[trigger] actors[i]).id != (#[trigger] actors[j]).id
}

/// Whether a snapshot of an actor is among the given ones.
pub open spec fn is_listed(actors: Seq<SnapshotView>, id: ActorId) -> bool {
    exists|i: int| 0 <= i < actors.len() && (#[trigger] actors[i]).id == id
}

/// The actors of the given snapshots.
pub open spec fn listed(actors: Seq<SnapshotView>) -> Set<ActorId> {
    Set::new(|id: ActorId| is_listed(actors, id))
}

/// Whether an actor has a parent among the given snapshots.
pub open spec fn has_parent(actors: Seq<SnapshotView>, actor: SnapshotView) -> bool {
    actor.parent matches Some(parent) && is_listed(actors, parent)
}

/// The actors without a parent among the given snapshots.
pub open spec fn roots_of(actors: Seq<SnapshotView>) -> Set<ActorId> {
    Set::new(
        |id: ActorId|
            exists|i: int|
                0 <= i < actors.len() && (#[trigger] actors[i]).id == id && !has_parent(
                    actors,
                    actors[i],
                ),
    )
}

/// The actors whose parent is the given one.
pub open spec fn children_of(actors: Seq<SnapshotView>, parent: ActorId) -> Set<ActorId> {
    Set::new(
        |id: ActorId|
            exists|i: int|
                0 <= i < actors.len() && (#[trigger] actors[i]).id == id && actors[i].parent
                    == Some(parent),
    )
}

/// Whether a tree is that of the given snapshots: one node for each actor in ascending order,
/// below it its children, and the actors without a parent as roots.
pub open spec fn is_tree_of(tree: ActorTree, actors: Seq<SnapshotView>) -> bool {
    &&& tree.roots@ == crate::collections::ascending(roots_of(actors))
    &&& tree.nodes@.map_values(|node: ActorTreeNode| node.actor.id)
        == crate::collections::ascending(listed(actors))
    &&& forall|i: int|
        0 <= i < tree.nodes@.len() ==> {
            &&& actors.contains((#[trigger] tree.nodes@[i]).actor@)
            &&& tree.nodes@[i].children@ == crate::collections::ascending(
                children_of(actors, tree.nodes@[i].actor.id),
            )
        }
}

spec fn ids_ascend(actors: Seq<SnapshotView>) -> bool {
    forall|i: int, j: int|
        0 <= i < j < actors.len() ==> (#[trigger] actors[i]).id.precedes((#[trigger] actors[j]).id)
}

spec fn same_members(left: Seq<SnapshotView>, right: Seq<SnapshotView>) -> bool {
    forall|actor: SnapshotView| #[trigger] left.contains(actor) <==> right.contains(actor)
}

/// Copies snapshots in ascending order of their ids.
fn sorted_by_id(actors: &[ActorSnapshot]) -> (sorted: Vec<ActorSnapshot>)
    requires
        distinct_ids(snapshot_views(actors@)),
    ensures
        ids_ascend(snapshot_views(sorted@)),
        same_members(snapshot_views(sorted@), snapshot_views(actors@)),
{
    let ghost all = snapshot_views(actors@);
    let mut sorted: Vec<ActorSnapshot> = Vec::new();
    let mut next: usize = 0;
    assert(snapshot_views(sorted@) =~= all.take(0));
    while next < actors.len()
        invariant
            next <= actors@.len(),
            all == snapshot_views(actors@),
            distinct_ids(all),
            ids_ascend(snapshot_views(sorted@)),
            same_members(snapshot_views(sorted@), all.take(next as int)),
        decreases actors@.len() - next,
    {
        let actor = actors[next].clone();
        let ghost before = snapshot_views(sorted@);
        let mut at: usize = sorted.len();
        while at > 0 && actor.id.is_before(sorted[at - 1].id)
            invariant
                at <= sorted@.len(),
                before == snapshot_views(sorted@),
                ids_ascend(before),
                forall|i: int| at <= i < before.len() ==> actor.id.precedes((#[trigger] before[i]).id),
            decreases at,
        {
            assert(before[at - 1].id == sorted@[at - 1].id);
            at = at - 1;
        }
        proof {
            assert(before.len() == sorted@.len());
            assert(actor@ == all[next as int]);
            if at > 0 {
                let prior = before[at - 1];
                assert(prior.id == sorted@[at - 1].id);
                assert(before.contains(prior));
                assert(all.take(next as int).contains(prior));
                let j = choose|j: int| 0 <= j < next && all.take(next as int)[j] == prior;
                assert(all[j].id != all[next as int].id);
                assert(prior.id.precedes(actor.id));
            }
        }
        let ghost new = actor@;
        sorted.insert(at, actor);
        proof {
            let after = snapshot_views(sorted@);
            assert(after =~= before.insert(at as int, new));
            assert forall|i: int, j: int| 0 <= i < j < after.len() implies (
            #[trigger] after[i]).id.precedes((#[trigger] after[j]).id) by {
                if at > 0 {
                    assert(before[at - 1].id.precedes(new.id));
                    if i < at - 1 {
                        assert(before[i].id.precedes(before[at - 1].id));
                    }
                }
            }
            let more = all.take(next + 1);
            assert forall|actor: SnapshotView| #[trigger]
                after.contains(actor) <==> more.contains(actor) by {
                if after.contains(actor) {
                    let i = choose|i: int| 0 <= i < after.len() && after[i] == actor;
                    if i == at {
                        assert(more[next as int] == actor);
                    } else {
                        let k = if i < at {
                            i
                        } else {
                            i - 1
                        };
                        assert(before[k] == actor);
                        assert(before.contains(actor));
                        assert(all.take(next as int).contains(actor));
                        let j = choose|j: int| 0 <= j < next && all.take(next as int)[j] == actor;
                        assert(more[j] == actor);
                    }
                }
                if more.contains(actor) {
                    let j = choose|j: int| 0 <= j < more.len() && more[j] == actor;
                    if j == next {
                        assert(after[at as int] == actor);
                    } else {
                        assert(all.take(next as int)[j] == actor);
                        assert(all.take(next as int).contains(actor));
                        assert(before.contains(actor));
                        let k = choose|k: int| 0 <= k < before.len() && before[k] == actor;
                        let i = if k < at {
                            k
                        } else {
                            k + 1
                        };
                        assert(after[i] == actor);
                    }
                }
            }
        }
        next = next + 1;
    }
    assert(all.take(next as int) =~= all);
    sorted
}

/// Which of the sorted actors to collect.
enum Wanted {
    Roots,
    ChildrenOf(ActorId),
}

spec fn wanted_in(actors: Seq<SnapshotView>, wanted: Wanted, actor: SnapshotView) -> bool {
    match wanted {
        Wanted::Roots => !has_parent(actors, actor),
        Wanted::ChildrenOf(parent) => actor.parent == Some(parent),
    }
}

spec fn wanted_set(actors: Seq<SnapshotView>, wanted: Wanted) -> Set<ActorId> {
    match wanted {
        Wanted::Roots => roots_of(actors),
        Wanted::ChildrenOf(parent) => children_of(actors, parent),
    }
}

/// Tells whether a snapshot of an actor is among the given ones.
fn contains_actor(actors: &Vec<ActorSnapshot>, id: ActorId) -> (found: bool)
    ensures
        found == is_listed(snapshot_views(actors@), id),
{
    let ghost all = snapshot_views(actors@);
    let mut at: usize = 0;
    while at < actors.len()
        invariant
            at <= actors@.len(),
            all == snapshot_views(actors@),
            forall|i: int| 0 <= i < at ==> (#[trigger] all[i]).id != id,
        decreases actors@.len() - at,
    {
        assert(all[at as int].id == actors@[at as int].id);
        if actors[at].id == id {
            return true;
        }
        at = at + 1;
    }
    false
}

/// Collects ids out of sorted snapshots.
fn collect(sorted: &Vec<ActorSnapshot>, wanted: Wanted) -> (ids: Vec<ActorId>)
    requires
        ids_ascend(snapshot_views(sorted@)),
    ensures
        ids@ == crate::collections::ascending(wanted_set(snapshot_views(sorted@), wanted)),
{
    let ghost all = snapshot_views(sorted@);
    let mut ids: Vec<ActorId> = Vec::new();
    let mut at: usize = 0;
    while at < sorted.len()
        invariant
            at <= sorted@.len(),
            all == snapshot_views(sorted@),
            ids_ascend(all),
            crate::collections::is_ascending(ids@),
            forall|i: int, j: int|
                0 <= i < ids@.len() && at <= j < all.len() ==> (#[trigger] ids@[i]).precedes(
                    (#[trigger] all[j]).id,
                ),
            forall|id: ActorId| #[trigger]
                ids@.contains(id) <==> exists|i: int|
                    0 <= i < at && (#[trigger] all[i]).id == id && wanted_in(all, wanted, all[i]),
        decreases sorted@.len() - at,
    {
        let actor = &sorted[at];
        assert(actor@ == all[at as int]);
        let take = match wanted {
            Wanted::Roots => match actor.parent {
                Some(parent) => !contains_actor(sorted, parent),
                None => true,
            },
            Wanted::ChildrenOf(parent) => match actor.parent {
                Some(own) => own == parent,
                None => false,
            },
        };
        let ghost before = ids@;
        if take {
            ids.push(actor.id);
        }
        proof {
            assert(take == wanted_in(all, wanted, all[at as int]));
            assert forall|id: ActorId| #[trigger]
                ids@.contains(id) <==> exists|i: int|
                    0 <= i < at + 1 && (#[trigger] all[i]).id == id && wanted_in(
                        all,
                        wanted,
                        all[i],
                    ) by {
                if ids@.contains(id) {
                    if before.contains(id) {
                        let i = choose|i: int|
                            0 <= i < at && (#[trigger] all[i]).id == id && wanted_in(
                                all,
                                wanted,
                                all[i],
                            );
                        assert(0 <= i < at + 1);
                    } else {
                        let k = choose|k: int| 0 <= k < ids@.len() && ids@[k] == id;
                        if k < before.len() {
                            assert(before[k] == id);
                        }
                        assert(all[at as int].id == id);
                    }
                }
                if exists|i: int|
                    0 <= i < at + 1 && (#[trigger] all[i]).id == id && wanted_in(
                        all,
                        wanted,
                        all[i],
                    ) {
                    let i = choose|i: int|
                        0 <= i < at + 1 && (#[trigger] all[i]).id == id && wanted_in(
                            all,
                            wanted,
                            all[i],
                        );
                    if i < at {
                        assert(before.contains(id));
                        let k = choose|k: int| 0 <= k < before.len() && before[k] == id;
                        assert(ids@[k] == id);
                    } else {
                        assert(ids@[ids@.len() - 1] == id);
                    }
                }
            }
        }
        at = at + 1;
    }
    proof {
        let set = wanted_set(all, wanted);
        assert forall|id: ActorId| #[trigger] set.contains(id) <==> ids@.contains(id) by {}
        assert(crate::collections::lists(ids@, set));
        crate::collections::lemma_ascending_unique(
            ids@,
            crate::collections::ascending(set),
            set,
        );
    }
    ids
}

proof fn lemma_same_sets(sorted: Seq<SnapshotView>, actors: Seq<SnapshotView>)
    requires
        same_members(sorted, actors),
    ensures
        listed(sorted) == listed(actors),
        roots_of(sorted) == roots_of(actors),
        forall|parent: ActorId| children_of(sorted, parent) == children_of(actors, parent),
{
    assert forall|i: int| 0 <= i < sorted.len() implies exists|j: int|
        0 <= j < actors.len() && actors[j] == #[trigger] sorted[i] by {
        assert(sorted.contains(sorted[i]));
        assert(actors.contains(sorted[i]));
    }
    assert forall|i: int| 0 <= i < actors.len() implies exists|j: int|
        0 <= j < sorted.len() && sorted[j] == #[trigger] actors[i] by {
        assert(actors.contains(actors[i]));
        assert(sorted.contains(actors[i]));
    }
    assert forall|id: ActorId| is_listed(sorted, id) == is_listed(actors, id) by {}
    assert(listed(sorted) =~= listed(actors));
    assert forall|actor: SnapshotView| has_parent(sorted, actor) == has_parent(actors, actor) by {}
    assert(roots_of(sorted) =~= roots_of(actors));
    assert forall|parent: ActorId| children_of(sorted, parent) == children_of(actors, parent) by {
        assert(children_of(sorted, parent) =~= children_of(actors, parent));
    }
}

/// Arranges snapshots of distinct actors as a tree.
pub fn build_actor_tree(actors: &[ActorSnapshot]) -> (tree: ActorTree)
    requires
        distinct_ids(snapshot_views(actors@)),
    ensures
        is_tree_of(tree, snapshot_views(actors@)),
{
    let ghost all = snapshot_views(actors@);
    let sorted = sorted_by_id(actors);
    let ghost ordered = snapshot_views(sorted@);
    proof {
        lemma_same_sets(ordered, all);
    }
    let roots = collect(&sorted, Wanted::Roots);
    let mut nodes: Vec<ActorTreeNode> = Vec::new();
    let mut at: usize = 0;
    while at < sorted.len()
        invariant
            at <= sorted@.len(),
            ordered == snapshot_views(sorted@),
            ids_ascend(ordered),
            nodes@.len() == at,
            forall|i: int|
                0 <= i < nodes@.len() ==> {
                    &&& (#[trigger] nodes@[i]).actor@ == ordered[i]
                    &&& nodes@[i].children@ == crate::collections::ascending(
                        children_of(ordered, nodes@[i].actor.id),
                    )
                },
        decreases sorted@.len() - at,
    {
        let actor = sorted[at].clone();
        assert(actor@ == ordered[at as int]);
        let children = collect(&sorted, Wanted::ChildrenOf(actor.id));
        nodes.push(ActorTreeNode { actor, children });
        at = at + 1;
    }
    let tree = ActorTree { roots, nodes };
    proof {
        let ids = tree.nodes@.map_values(|node: ActorTreeNode| node.actor.id);
        assert forall|i: int| 0 <= i < ids.len() implies #[trigger] ids[i] == ordered[i].id by {
            assert(tree.nodes@[i].actor@ == ordered[i]);
        }
        assert(crate::collections::is_ascending(ids));
        let set = listed(all);
        assert forall|id: ActorId| #[trigger] set.contains(id) <==> ids.contains(id) by {
            if is_listed(ordered, id) {
                let i = choose|i: int| 0 <= i < ordered.len() && (#[trigger] ordered[i]).id == id;
                assert(ids[i] == id);
            }
            if ids.contains(id) {
                let i = choose|i: int| 0 <= i < ids.len() && ids[i] == id;
                assert(ordered[i].id == id);
            }
        }
        assert(crate::collections::lists(ids, set));
        crate::collections::lemma_ascending_unique(
            ids,
            crate::collections::ascending(set),
            set,
        );
        assert forall|i: int| 0 <= i < tree.nodes@.len() implies all.contains(
            (#[trigger] tree.nodes@[i]).actor@,
        ) by {
            assert(ordered.contains(ordered[i]));
        }
    }
    tree
}

/// Every actor of a tree stands in one place: it is a root, or the child of one node.
pub proof fn lemma_tree_places_every_actor_once(
    actors: Seq<SnapshotView>,
    id: ActorId,
    left: ActorId,
    right: ActorId,
)
    requires
        distinct_ids(actors),
        is_listed(actors, id),
    ensures
        roots_of(actors).contains(id) || exists|parent: ActorId|
            is_listed(actors, parent) && #[trigger] children_of(actors, parent).contains(id),
        children_of(actors, left).contains(id) && children_of(actors, right).contains(id) ==> left
            == right,
        roots_of(actors).contains(id) && children_of(actors, left).contains(id) ==> !is_listed(
            actors,
            left,
        ),
{
    let i = choose|i: int| 0 <= i < actors.len() && (#[trigger] actors[i]).id == id;
    if has_parent(actors, actors[i]) {
        assert(children_of(actors, actors[i].parent->0).contains(id));
    }
}

/// How many actors have a status.
pub open spec fn count_of(actors: Seq<SnapshotView>, status: ActorStatus) -> nat
    decreases actors.len(),
{
    if actors.len() == 0 {
        0
    } else {
        count_of(actors.drop_last(), status) + (if actors.last().status == status {
            1nat
        } else {
            0nat
        })
    }
}

/// How many envelopes wait in all mailboxes.
pub open spec fn mailbox_total(actors: Seq<SnapshotView>) -> nat
    decreases actors.len(),
{
    if actors.len() == 0 {
        0
    } else {
        mailbox_total(actors.drop_last()) + actors.last().metrics.mailbox_len as nat
    }
}

/// The length of the longest mailbox.
pub open spec fn mailbox_max(actors: Seq<SnapshotView>) -> nat
    decreases actors.len(),
{
    if actors.len() == 0 {
        0
    } else {
        let others = mailbox_max(actors.drop_last());
        let own = actors.last().metrics.mailbox_len as nat;
        if others < own {
            own
        } else {
            others
        }
    }
}

proof fn lemma_total_grows(actors: Seq<SnapshotView>, count: int)
    requires
        0 <= count <= actors.len(),
    ensures
        mailbox_total(actors.take(count)) <= mailbox_total(actors),
    decreases actors.len(),
{
    if count < actors.len() {
        lemma_total_grows(actors.drop_last(), count);
        assert(actors.drop_last().take(count) =~= actors.take(count));
    } else {
        assert(actors.take(count) =~= actors);
    }
}

/// Aggregates snapshots into metrics. Where the mailboxes hold more envelopes than a `usize`
/// counts, the total wraps around.
pub fn build_metrics_snapshot(
    actors: &[ActorSnapshot],
    completed_actors: usize,
    scheduler_metrics: SchedulerMetrics,
    run_queues: Vec<RunQueueSnapshot>,
    observed_at: Timestamp,
) -> (metrics: RuntimeMetricsSnapshot)
    ensures
        metrics.observed_at == observed_at,
        metrics.live_actors == actors@.len(),
        metrics.completed_actors == completed_actors,
        metrics.starting_actors == count_of(snapshot_views(actors@), ActorStatus::Starting),
        metrics.runnable_actors == count_of(snapshot_views(actors@), ActorStatus::Runnable),
        metrics.waiting_actors == count_of(snapshot_views(actors@), ActorStatus::Waiting),
        metrics.running_actors == count_of(snapshot_views(actors@), ActorStatus::Running),
        metrics.exiting_actors == count_of(snapshot_views(actors@), ActorStatus::Exiting),
        metrics.dead_actors == count_of(snapshot_views(actors@), ActorStatus::Dead),
        mailbox_total(snapshot_views(actors@)) <= usize::MAX ==> metrics.total_mailbox_len
            == mailbox_total(snapshot_views(actors@)),
        metrics.max_mailbox_len == mailbox_max(snapshot_views(actors@)),
        metrics.scheduler_metrics == scheduler_metrics,
        metrics.run_queues == run_queues,
{
    let ghost all = snapshot_views(actors@);
    let mut starting: usize = 0;
    let mut runnable: usize = 0;
    let mut waiting: usize = 0;
    let mut running: usize = 0;
    let mut exiting: usize = 0;
    let mut dead: usize = 0;
    let mut total: usize = 0;
    let mut longest: usize = 0;
    let mut at: usize = 0;
    while at < actors.len()
        invariant
            at <= actors@.len(),
            all == snapshot_views(actors@),
            starting == count_of(all.take(at as int), ActorStatus::Starting),
            runnable == count_of(all.take(at as int), ActorStatus::Runnable),
            waiting == count_of(all.take(at as int), ActorStatus::Waiting),
            running == count_of(all.take(at as int), ActorStatus::Running),
            exiting == count_of(all.take(at as int), ActorStatus::Exiting),
            dead == count_of(all.take(at as int), ActorStatus::Dead),
            starting + runnable + waiting + running + exiting + dead == at,
            mailbox_total(all) <= usize::MAX ==> total == mailbox_total(all.take(at as int)),
            longest == mailbox_max(all.take(at as int)),
        decreases actors@.len() - at,
    {
        let len: usize = actors[at].metrics.mailbox_len;
        proof {
            assert(actors.len() == all.len());
            assert(all.take(at + 1).drop_last() =~= all.take(at as int));
            assert(all.take(at + 1).last() == actors@[at as int]@);
            lemma_total_grows(all, at + 1);
        }
        total = total.wrapping_add(len);
        if longest < len {
            longest = len;
        }
        match actors[at].status {
            ActorStatus::Starting => {
                starting = starting + 1;
            },
            ActorStatus::Runnable => {
                runnable = runnable + 1;
            },
            ActorStatus::Waiting => {
                waiting = waiting + 1;
            },
            ActorStatus::Running => {
                running = running + 1;
            },
            ActorStatus::Exiting => {
                exiting = exiting + 1;
            },
            ActorStatus::Dead => {
                dead = dead + 1;
            },
        }
        at = at + 1;
    }
    assert(all.take(at as int) =~= all);
    RuntimeMetricsSnapshot {
        observed_at,
        live_actors: actors.len(),
        completed_actors,
        starting_actors: starting,
        runnable_actors: runnable,
        waiting_actors: waiting,
        running_actors: running,
        exiting_actors: exiting,
        dead_actors: dead,
        total_mailbox_len: total,
        max_mailbox_len: longest,
        scheduler_metrics,
        run_queues,
    }
}

/// The counts of the single statuses add up to the number of actors.
pub proof fn lemma_statuses_add_up(actors: Seq<SnapshotView>)
    ensures
        count_of(actors, ActorStatus::Starting) + count_of(actors, ActorStatus::Runnable)
            + count_of(actors, ActorStatus::Waiting) + count_of(actors, ActorStatus::Running)
            + count_of(actors, ActorStatus::Exiting) + count_of(actors, ActorStatus::Dead)
            == actors.len(),
    decreases actors.len(),
{
    if actors.len() > 0 {
        lemma_statuses_add_up(actors.drop_last());
    }
}

/// Combines snapshots, their tree and their metrics.
pub fn build_runtime_introspection(
    actors: Vec<ActorSnapshot>,
    completed_actors: usize,
    scheduler_metrics: SchedulerMetrics,
    run_queues: Vec<RunQueueSnapshot>,
    observed_at: Timestamp,
) -> (introspection: RuntimeIntrospection)
    requires
        distinct_ids(snapshot_views(actors@)),
    ensures
        introspection.actors == actors,
        is_tree_of(introspection.actor_tree, snapshot_views(actors@)),
        introspection.metrics.observed_at == observed_at,
        introspection.metrics.live_actors == actors@.len(),
        introspection.metrics.completed_actors == completed_actors,
        introspection.metrics.starting_actors == count_of(
            snapshot_views(actors@),
            ActorStatus::Starting,
        ),
        introspection.metrics.runnable_actors == count_of(
            snapshot_views(actors@),
            ActorStatus::Runnable,
        ),
        introspection.metrics.waiting_actors == count_of(
            snapshot_views(actors@),
            ActorStatus::Waiting,
        ),
        introspection.metrics.running_actors == count_of(
            snapshot_views(actors@),
            ActorStatus::Running,
        ),
        introspection.metrics.exiting_actors == count_of(
            snapshot_views(actors@),
            ActorStatus::Exiting,
        ),
        introspection.metrics.dead_actors == count_of(snapshot_views(actors@), ActorStatus::Dead),
        mailbox_total(snapshot_views(actors@)) <= usize::MAX
            ==> introspection.metrics.total_mailbox_len == mailbox_total(snapshot_views(actors@)),
        introspection.metrics.max_mailbox_len == mailbox_max(snapshot_views(actors@)),
        introspection.metrics.scheduler_metrics == scheduler_metrics,
        introspection.metrics.run_queues == run_queues,
{
    let actor_tree = build_actor_tree(actors.as_slice());
    let metrics = build_metrics_snapshot(
        actors.as_slice(),
        completed_actors,
        scheduler_metrics,
        run_queues,
        observed_at,
    );
    RuntimeIntrospection { actors, actor_tree, metrics }
}

} // verus!
