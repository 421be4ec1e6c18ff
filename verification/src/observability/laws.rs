//! What events, trees, counts and the exposition tell of a runtime.

use vstd::prelude::*;

use crate::lifecycle::{CrashView, LifecycleView};
use crate::scheduler::RunQueueSnapshot;
use crate::snapshot::SnapshotView;
use crate::types::{ActorId, ActorStatus};

use super::events::{EventView, KindView};
use super::types::{ActorTree, ActorTreeNode, RuntimeMetricsSnapshot};

verus! {

/// Whether a text has another one somewhere inside.
pub open spec fn says(text: Seq<char>, part: Seq<char>) -> bool {
    exists|before: Seq<char>, after: Seq<char>| text == #[trigger] (before + part + after)
}

proof fn lemma_says_itself(text: Seq<char>, before: Seq<char>, part: Seq<char>)
    requires
        text =~= before + part,
    ensures
        says(text, part),
{
    assert(text =~= before + part + Seq::<char>::empty());
}

proof fn lemma_says_in_front(front: Seq<char>, back: Seq<char>, part: Seq<char>)
    requires
        says(front, part),
    ensures
        says(front + back, part),
{
    let (before, after) = choose|before: Seq<char>, after: Seq<char>|
        front == #[trigger] (before + part + after);
    assert(front + back =~= before + part + (after + back));
}

proof fn lemma_says_behind(front: Seq<char>, back: Seq<char>, part: Seq<char>)
    requires
        says(back, part),
    ensures
        says(front + back, part),
{
    let (before, after) = choose|before: Seq<char>, after: Seq<char>|
        back == #[trigger] (before + part + after);
    assert(front + back =~= (front + before) + part + after);
}

/// The two lines in front of the samples of a metric: what it tells, and of what kind it is.
pub open spec fn preamble(name: Seq<char>, help: Seq<char>, kind: Seq<char>) -> Seq<char> {
    "# HELP "@ + name + " "@ + help + "\n# TYPE "@ + name + " "@ + kind + "\n"@
}

/// A metric with a single sample: its preamble, and its name, a space and the value on a line of
/// their own.
pub open spec fn metric(
    name: Seq<char>,
    help: Seq<char>,
    kind: Seq<char>,
    value: Seq<char>,
) -> Seq<char> {
    preamble(name, help, kind) + name + " "@ + value + "\n"@
}

/// A metric whose single sample is a number.
pub open spec fn sample(name: Seq<char>, help: Seq<char>, kind: Seq<char>, value: nat) -> Seq<
    char,
> {
    metric(name, help, kind, crate::text::decimal(value))
}

/// A sample with one label.
pub open spec fn labelled_sample(
    name: Seq<char>,
    label: Seq<char>,
    label_value: Seq<char>,
    value: nat,
) -> Seq<char> {
    name + "{"@ + label + "=\""@ + label_value + "\"} "@ + crate::text::decimal(value) + "\n"@
}

proof fn lemma_scalar_says_sample(name: Seq<char>, help: Seq<char>, kind: Seq<char>, value: nat)
    ensures
        says(
            super::prometheus::scalar_text(name, help, kind, crate::text::decimal(value)),
            sample(name, help, kind, value),
        ),
{
    let text = super::prometheus::scalar_text(name, help, kind, crate::text::decimal(value));
    lemma_says_itself(text, Seq::empty(), sample(name, help, kind, value));
}

proof fn lemma_gauges_say(
    metrics: RuntimeMetricsSnapshot,
    observed_at: Seq<char>,
    utilization: Seq<char>,
)
    ensures
        ({
            let text = metrics.gauges_text(observed_at, utilization);
            &&& says(
                text,
                sample(
                    "lamport_runtime_live_actors"@,
                    "Current number of live actors in the runtime."@,
                    "gauge"@,
                    metrics.live_actors as nat,
                ),
            )
            &&& says(
                text,
                sample(
                    "lamport_runtime_completed_actors"@,
                    "Number of completed actor snapshots retained for introspection."@,
                    "gauge"@,
                    metrics.completed_actors as nat,
                ),
            )
            &&& says(
                text,
                sample(
                    "lamport_runtime_mailbox_messages"@,
                    "Total number of messages queued across live actor mailboxes."@,
                    "gauge"@,
                    metrics.total_mailbox_len as nat,
                ),
            )
            &&& says(
                text,
                sample(
                    "lamport_runtime_mailbox_max_messages"@,
                    "Largest mailbox length across live actors."@,
                    "gauge"@,
                    metrics.max_mailbox_len as nat,
                ),
            )
            &&& says(
                text,
                metric(
                    "lamport_runtime_observed_at_seconds"@,
                    "Unix timestamp when the runtime metrics snapshot was captured."@,
                    "gauge"@,
                    observed_at,
                ),
            )
            &&& says(
                text,
                metric(
                    "lamport_scheduler_utilization_ratio"@,
                    "Estimated fraction of busy scheduler time over the runtime lifetime."@,
                    "gauge"@,
                    utilization,
                ),
            )
        }),
{
    let gauge = "gauge"@;
    let observed = super::prometheus::scalar_text(
        "lamport_runtime_observed_at_seconds"@,
        "Unix timestamp when the runtime metrics snapshot was captured."@,
        gauge,
        observed_at,
    );
    let live = super::prometheus::scalar_text(
        "lamport_runtime_live_actors"@,
        "Current number of live actors in the runtime."@,
        gauge,
        crate::text::decimal(metrics.live_actors as nat),
    );
    let completed = super::prometheus::scalar_text(
        "lamport_runtime_completed_actors"@,
        "Number of completed actor snapshots retained for introspection."@,
        gauge,
        crate::text::decimal(metrics.completed_actors as nat),
    );
    let total = super::prometheus::scalar_text(
        "lamport_runtime_mailbox_messages"@,
        "Total number of messages queued across live actor mailboxes."@,
        gauge,
        crate::text::decimal(metrics.total_mailbox_len as nat),
    );
    let longest = super::prometheus::scalar_text(
        "lamport_runtime_mailbox_max_messages"@,
        "Largest mailbox length across live actors."@,
        gauge,
        crate::text::decimal(metrics.max_mailbox_len as nat),
    );
    let busy = super::prometheus::scalar_text(
        "lamport_scheduler_utilization_ratio"@,
        "Estimated fraction of busy scheduler time over the runtime lifetime."@,
        gauge,
        utilization,
    );
    lemma_scalar_says_sample(
        "lamport_runtime_live_actors"@,
        "Current number of live actors in the runtime."@,
        gauge,
        metrics.live_actors as nat,
    );
    lemma_scalar_says_sample(
        "lamport_runtime_completed_actors"@,
        "Number of completed actor snapshots retained for introspection."@,
        gauge,
        metrics.completed_actors as nat,
    );
    lemma_scalar_says_sample(
        "lamport_runtime_mailbox_messages"@,
        "Total number of messages queued across live actor mailboxes."@,
        gauge,
        metrics.total_mailbox_len as nat,
    );
    lemma_scalar_says_sample(
        "lamport_runtime_mailbox_max_messages"@,
        "Largest mailbox length across live actors."@,
        gauge,
        metrics.max_mailbox_len as nat,
    );
    let observed_line = metric(
        "lamport_runtime_observed_at_seconds"@,
        "Unix timestamp when the runtime metrics snapshot was captured."@,
        "gauge"@,
        observed_at,
    );
    assert(observed =~= observed_line);
    lemma_says_itself(observed, Seq::empty(), observed_line);
    let busy_line = metric(
        "lamport_scheduler_utilization_ratio"@,
        "Estimated fraction of busy scheduler time over the runtime lifetime."@,
        "gauge"@,
        utilization,
    );
    assert(busy =~= busy_line);
    lemma_says_itself(busy, Seq::empty(), busy_line);
    let one = observed;
    let two = one + live;
    let three = two + completed;
    let four = three + total;
    let five = four + longest;
    let six = five + busy;
    assert(metrics.gauges_text(observed_at, utilization) == six);
    lemma_says_in_front(one, live, observed_line);
    lemma_says_in_front(two, completed, observed_line);
    lemma_says_in_front(three, total, observed_line);
    lemma_says_in_front(four, longest, observed_line);
    lemma_says_in_front(five, busy, observed_line);
    let live_line = sample(
        "lamport_runtime_live_actors"@,
        "Current number of live actors in the runtime."@,
        "gauge"@,
        metrics.live_actors as nat,
    );
    lemma_says_behind(one, live, live_line);
    lemma_says_in_front(two, completed, live_line);
    lemma_says_in_front(three, total, live_line);
    lemma_says_in_front(four, longest, live_line);
    lemma_says_in_front(five, busy, live_line);
    let completed_line = sample(
        "lamport_runtime_completed_actors"@,
        "Number of completed actor snapshots retained for introspection."@,
        "gauge"@,
        metrics.completed_actors as nat,
    );
    lemma_says_behind(two, completed, completed_line);
    lemma_says_in_front(three, total, completed_line);
    lemma_says_in_front(four, longest, completed_line);
    lemma_says_in_front(five, busy, completed_line);
    let total_line = sample(
        "lamport_runtime_mailbox_messages"@,
        "Total number of messages queued across live actor mailboxes."@,
        "gauge"@,
        metrics.total_mailbox_len as nat,
    );
    lemma_says_behind(three, total, total_line);
    lemma_says_in_front(four, longest, total_line);
    lemma_says_in_front(five, busy, total_line);
    let longest_line = sample(
        "lamport_runtime_mailbox_max_messages"@,
        "Largest mailbox length across live actors."@,
        "gauge"@,
        metrics.max_mailbox_len as nat,
    );
    lemma_says_behind(four, longest, longest_line);
    lemma_says_in_front(five, busy, longest_line);
    lemma_says_behind(five, busy, busy_line);
}

proof fn lemma_counters_say(metrics: RuntimeMetricsSnapshot)
    ensures
        ({
            let text = metrics.counters_text();
            let counts = metrics.scheduler_metrics;
            &&& says(
                text,
                sample(
                    "lamport_scheduler_normal_turns_total"@,
                    "Total actor turns executed on normal schedulers."@,
                    "counter"@,
                    counts.normal_turns as nat,
                ),
            )
            &&& says(
                text,
                sample(
                    "lamport_scheduler_idle_turns_total"@,
                    "Total idle polling turns observed by schedulers."@,
                    "counter"@,
                    counts.idle_turns as nat,
                ),
            )
            &&& says(
                text,
                sample(
                    "lamport_scheduler_blocking_io_jobs_total"@,
                    "Total jobs submitted to the blocking I/O pool."@,
                    "counter"@,
                    counts.blocking_io_jobs as nat,
                ),
            )
            &&& says(
                text,
                sample(
                    "lamport_scheduler_blocking_cpu_jobs_total"@,
                    "Total jobs submitted to the blocking CPU pool."@,
                    "counter"@,
                    counts.blocking_cpu_jobs as nat,
                ),
            )
        }),
{
    let counter = "counter"@;
    let counts = metrics.scheduler_metrics;
    let normal = super::prometheus::scalar_text(
        "lamport_scheduler_normal_turns_total"@,
        "Total actor turns executed on normal schedulers."@,
        counter,
        crate::text::decimal(counts.normal_turns as nat),
    );
    let idle = super::prometheus::scalar_text(
        "lamport_scheduler_idle_turns_total"@,
        "Total idle polling turns observed by schedulers."@,
        counter,
        crate::text::decimal(counts.idle_turns as nat),
    );
    let io = super::prometheus::scalar_text(
        "lamport_scheduler_blocking_io_jobs_total"@,
        "Total jobs submitted to the blocking I/O pool."@,
        counter,
        crate::text::decimal(counts.blocking_io_jobs as nat),
    );
    let cpu = super::prometheus::scalar_text(
        "lamport_scheduler_blocking_cpu_jobs_total"@,
        "Total jobs submitted to the blocking CPU pool."@,
        counter,
        crate::text::decimal(counts.blocking_cpu_jobs as nat),
    );
    lemma_scalar_says_sample(
        "lamport_scheduler_normal_turns_total"@,
        "Total actor turns executed on normal schedulers."@,
        counter,
        counts.normal_turns as nat,
    );
    lemma_scalar_says_sample(
        "lamport_scheduler_idle_turns_total"@,
        "Total idle polling turns observed by schedulers."@,
        counter,
        counts.idle_turns as nat,
    );
    lemma_scalar_says_sample(
        "lamport_scheduler_blocking_io_jobs_total"@,
        "Total jobs submitted to the blocking I/O pool."@,
        counter,
        counts.blocking_io_jobs as nat,
    );
    lemma_scalar_says_sample(
        "lamport_scheduler_blocking_cpu_jobs_total"@,
        "Total jobs submitted to the blocking CPU pool."@,
        counter,
        counts.blocking_cpu_jobs as nat,
    );
    let two = normal + idle;
    let three = two + io;
    let four = three + cpu;
    assert(metrics.counters_text() == four);
    let normal_line = sample(
        "lamport_scheduler_normal_turns_total"@,
        "Total actor turns executed on normal schedulers."@,
        "counter"@,
        counts.normal_turns as nat,
    );
    lemma_says_in_front(normal, idle, normal_line);
    lemma_says_in_front(two, io, normal_line);
    lemma_says_in_front(three, cpu, normal_line);
    let idle_line = sample(
        "lamport_scheduler_idle_turns_total"@,
        "Total idle polling turns observed by schedulers."@,
        "counter"@,
        counts.idle_turns as nat,
    );
    lemma_says_behind(normal, idle, idle_line);
    lemma_says_in_front(two, io, idle_line);
    lemma_says_in_front(three, cpu, idle_line);
    let io_line = sample(
        "lamport_scheduler_blocking_io_jobs_total"@,
        "Total jobs submitted to the blocking I/O pool."@,
        "counter"@,
        counts.blocking_io_jobs as nat,
    );
    lemma_says_behind(two, io, io_line);
    lemma_says_in_front(three, cpu, io_line);
    let cpu_line = sample(
        "lamport_scheduler_blocking_cpu_jobs_total"@,
        "Total jobs submitted to the blocking CPU pool."@,
        "counter"@,
        counts.blocking_cpu_jobs as nat,
    );
    lemma_says_behind(three, cpu, cpu_line);
}

/// The preambles of the metrics that have a sample for each scheduler.
pub open spec fn queue_preambles() -> Seq<char> {
    preamble(
        "lamport_scheduler_runnable_actors"@,
        "Number of runnable actors assigned to each scheduler."@,
        "gauge"@,
    ) + preamble(
        "lamport_scheduler_waiting_actors"@,
        "Number of waiting actors assigned to each scheduler."@,
        "gauge"@,
    ) + preamble(
        "lamport_scheduler_injected_total"@,
        "Actors injected onto each scheduler from the global queue."@,
        "counter"@,
    ) + preamble("lamport_scheduler_stolen_total"@, "Actors stolen by each scheduler."@, "counter"@)
}

/// The sample of a status.
pub open spec fn status_sample(status: Seq<char>, count: usize) -> Seq<char> {
    labelled_sample("lamport_runtime_actor_status"@, "status"@, status, count as nat)
}

proof fn lemma_statuses_say(metrics: RuntimeMetricsSnapshot)
    ensures
        ({
            let text = metrics.statuses_text();
            &&& says(
                text,
                preamble(
                    "lamport_runtime_actor_status"@,
                    "Number of actors in each lifecycle state."@,
                    "gauge"@,
                ),
            )
            &&& says(text, status_sample("starting"@, metrics.starting_actors))
            &&& says(text, status_sample("runnable"@, metrics.runnable_actors))
            &&& says(text, status_sample("waiting"@, metrics.waiting_actors))
            &&& says(text, status_sample("running"@, metrics.running_actors))
            &&& says(text, status_sample("exiting"@, metrics.exiting_actors))
            &&& says(text, status_sample("dead"@, metrics.dead_actors))
        }),
{
    let header = super::prometheus::header_text(
        "lamport_runtime_actor_status"@,
        "Number of actors in each lifecycle state."@,
        "gauge"@,
    );
    let starting = status_sample("starting"@, metrics.starting_actors);
    let runnable = status_sample("runnable"@, metrics.runnable_actors);
    let waiting = status_sample("waiting"@, metrics.waiting_actors);
    let running = status_sample("running"@, metrics.running_actors);
    let exiting = status_sample("exiting"@, metrics.exiting_actors);
    let dead = status_sample("dead"@, metrics.dead_actors);
    let one = header + starting;
    let two = one + runnable;
    let three = two + waiting;
    let four = three + running;
    let five = four + exiting;
    let six = five + dead;
    assert(metrics.statuses_text() == six);
    lemma_says_itself(header, Seq::empty(), header);
    lemma_says_in_front(header, starting, header);
    lemma_says_in_front(one, runnable, header);
    lemma_says_in_front(two, waiting, header);
    lemma_says_in_front(three, running, header);
    lemma_says_in_front(four, exiting, header);
    lemma_says_in_front(five, dead, header);
    lemma_says_itself(one, header, starting);
    lemma_says_in_front(one, runnable, starting);
    lemma_says_in_front(two, waiting, starting);
    lemma_says_in_front(three, running, starting);
    lemma_says_in_front(four, exiting, starting);
    lemma_says_in_front(five, dead, starting);
    lemma_says_itself(two, one, runnable);
    lemma_says_in_front(two, waiting, runnable);
    lemma_says_in_front(three, running, runnable);
    lemma_says_in_front(four, exiting, runnable);
    lemma_says_in_front(five, dead, runnable);
    lemma_says_itself(three, two, waiting);
    lemma_says_in_front(three, running, waiting);
    lemma_says_in_front(four, exiting, waiting);
    lemma_says_in_front(five, dead, waiting);
    lemma_says_itself(four, three, running);
    lemma_says_in_front(four, exiting, running);
    lemma_says_in_front(five, dead, running);
    lemma_says_itself(five, four, exiting);
    lemma_says_in_front(five, dead, exiting);
    lemma_says_itself(six, five, dead);
}

/// The exposition tells every number of a snapshot under the name of its metric, with what the
/// metric tells and of what kind it is in front.
pub proof fn lemma_the_exposition_tells_every_number(
    metrics: RuntimeMetricsSnapshot,
    observed_at: Seq<char>,
    utilization: Seq<char>,
)
    ensures
        ({
            let text = metrics.prometheus_text(observed_at, utilization);
            let counts = metrics.scheduler_metrics;
            &&& says(
                text,
                metric(
                    "lamport_runtime_observed_at_seconds"@,
                    "Unix timestamp when the runtime metrics snapshot was captured."@,
                    "gauge"@,
                    observed_at,
                ),
            )
            &&& says(
                text,
                metric(
                    "lamport_scheduler_utilization_ratio"@,
                    "Estimated fraction of busy scheduler time over the runtime lifetime."@,
                    "gauge"@,
                    utilization,
                ),
            )
            &&& says(
                text,
                sample(
                    "lamport_runtime_live_actors"@,
                    "Current number of live actors in the runtime."@,
                    "gauge"@,
                    metrics.live_actors as nat,
                ),
            )
            &&& says(
                text,
                sample(
                    "lamport_runtime_completed_actors"@,
                    "Number of completed actor snapshots retained for introspection."@,
                    "gauge"@,
                    metrics.completed_actors as nat,
                ),
            )
            &&& says(
                text,
                sample(
                    "lamport_runtime_mailbox_messages"@,
                    "Total number of messages queued across live actor mailboxes."@,
                    "gauge"@,
                    metrics.total_mailbox_len as nat,
                ),
            )
            &&& says(
                text,
                sample(
                    "lamport_runtime_mailbox_max_messages"@,
                    "Largest mailbox length across live actors."@,
                    "gauge"@,
                    metrics.max_mailbox_len as nat,
                ),
            )
            &&& says(
                text,
                sample(
                    "lamport_scheduler_normal_turns_total"@,
                    "Total actor turns executed on normal schedulers."@,
                    "counter"@,
                    counts.normal_turns as nat,
                ),
            )
            &&& says(
                text,
                sample(
                    "lamport_scheduler_idle_turns_total"@,
                    "Total idle polling turns observed by schedulers."@,
                    "counter"@,
                    counts.idle_turns as nat,
                ),
            )
            &&& says(
                text,
                sample(
                    "lamport_scheduler_blocking_io_jobs_total"@,
                    "Total jobs submitted to the blocking I/O pool."@,
                    "counter"@,
                    counts.blocking_io_jobs as nat,
                ),
            )
            &&& says(
                text,
                sample(
                    "lamport_scheduler_blocking_cpu_jobs_total"@,
                    "Total jobs submitted to the blocking CPU pool."@,
                    "counter"@,
                    counts.blocking_cpu_jobs as nat,
                ),
            )
            &&& says(
                text,
                preamble(
                    "lamport_runtime_actor_status"@,
                    "Number of actors in each lifecycle state."@,
                    "gauge"@,
                ),
            )
            &&& says(text, status_sample("starting"@, metrics.starting_actors))
            &&& says(text, status_sample("runnable"@, metrics.runnable_actors))
            &&& says(text, status_sample("waiting"@, metrics.waiting_actors))
            &&& says(text, status_sample("running"@, metrics.running_actors))
            &&& says(text, status_sample("exiting"@, metrics.exiting_actors))
            &&& says(text, status_sample("dead"@, metrics.dead_actors))
            &&& says(text, queue_preambles())
        }),
{
    let gauges = metrics.gauges_text(observed_at, utilization);
    let counters = metrics.counters_text();
    let statuses = metrics.statuses_text();
    let headers = super::prometheus::queue_headers_text();
    let queues = super::prometheus::queues_text(
        super::prometheus::by_scheduler(metrics.run_queues@),
    );
    lemma_gauges_say(metrics, observed_at, utilization);
    lemma_counters_say(metrics);
    lemma_statuses_say(metrics);
    let two = gauges + counters;
    let three = two + statuses;
    let four = three + headers;
    let five = four + queues;
    assert(metrics.prometheus_text(observed_at, utilization) == five);
    lemma_says_itself(headers, Seq::empty(), queue_preambles());
    lemma_says_behind(three, headers, queue_preambles());
    lemma_says_in_front(four, queues, queue_preambles());
    assert forall|part: Seq<char>| #[trigger] says(gauges, part) implies says(five, part) by {
        lemma_says_in_front(gauges, counters, part);
        lemma_says_in_front(two, statuses, part);
        lemma_says_in_front(three, headers, part);
        lemma_says_in_front(four, queues, part);
    }
    assert forall|part: Seq<char>| #[trigger] says(counters, part) implies says(five, part) by {
        lemma_says_behind(gauges, counters, part);
        lemma_says_in_front(two, statuses, part);
        lemma_says_in_front(three, headers, part);
        lemma_says_in_front(four, queues, part);
    }
    assert forall|part: Seq<char>| #[trigger] says(statuses, part) implies says(five, part) by {
        lemma_says_behind(two, statuses, part);
        lemma_says_in_front(three, headers, part);
        lemma_says_in_front(four, queues, part);
    }
}

proof fn lemma_queue_says(queue: RunQueueSnapshot)
    ensures
        ({
            let text = super::prometheus::queue_text(queue);
            let id = crate::text::decimal(queue.scheduler_id as nat);
            let label = "scheduler_id"@;
            &&& says(
                text,
                labelled_sample(
                    "lamport_scheduler_runnable_actors"@,
                    label,
                    id,
                    queue.runnable as nat,
                ),
            )
            &&& says(
                text,
                labelled_sample(
                    "lamport_scheduler_waiting_actors"@,
                    label,
                    id,
                    queue.waiting as nat,
                ),
            )
            &&& says(
                text,
                labelled_sample(
                    "lamport_scheduler_injected_total"@,
                    label,
                    id,
                    queue.injected as nat,
                ),
            )
            &&& says(
                text,
                labelled_sample("lamport_scheduler_stolen_total"@, label, id, queue.stolen as nat),
            )
        }),
{
    let id = crate::text::decimal(queue.scheduler_id as nat);
    let label = "scheduler_id"@;
    let runnable = labelled_sample(
        "lamport_scheduler_runnable_actors"@,
        label,
        id,
        queue.runnable as nat,
    );
    let waiting = labelled_sample(
        "lamport_scheduler_waiting_actors"@,
        label,
        id,
        queue.waiting as nat,
    );
    let injected = labelled_sample(
        "lamport_scheduler_injected_total"@,
        label,
        id,
        queue.injected as nat,
    );
    let stolen = labelled_sample(
        "lamport_scheduler_stolen_total"@,
        label,
        id,
        queue.stolen as nat,
    );
    let none = Seq::<char>::empty();
    assert(runnable =~= none + runnable);
    lemma_says_itself(runnable, none, runnable);
    let two = runnable + waiting;
    let three = two + injected;
    let four = three + stolen;
    assert(super::prometheus::queue_text(queue) == four);
    lemma_says_in_front(runnable, waiting, runnable);
    lemma_says_in_front(two, injected, runnable);
    lemma_says_in_front(three, stolen, runnable);
    lemma_says_itself(two, runnable, waiting);
    lemma_says_in_front(two, injected, waiting);
    lemma_says_in_front(three, stolen, waiting);
    lemma_says_itself(three, two, injected);
    lemma_says_in_front(three, stolen, injected);
    lemma_says_itself(four, three, stolen);
}

proof fn lemma_queues_say(queues: Seq<RunQueueSnapshot>, at: int, part: Seq<char>)
    requires
        0 <= at < queues.len(),
        says(super::prometheus::queue_text(queues[at]), part),
    ensures
        says(super::prometheus::queues_text(queues), part),
    decreases queues.len(),
{
    let front = super::prometheus::queues_text(queues.drop_last());
    let back = super::prometheus::queue_text(queues.last());
    if at == queues.len() - 1 {
        lemma_says_behind(front, back, part);
    } else {
        assert(queues.drop_last()[at] == queues[at]);
        lemma_queues_say(queues.drop_last(), at, part);
        lemma_says_in_front(front, back, part);
    }
}

proof fn lemma_placed_holds(
    sorted: Seq<RunQueueSnapshot>,
    queue: RunQueueSnapshot,
    other: RunQueueSnapshot,
)
    requires
        sorted.contains(other) || other == queue,
    ensures
        super::prometheus::placed(sorted, queue).contains(other),
    decreases sorted.len(),
{
    let after = super::prometheus::placed(sorted, queue);
    if sorted.len() == 0 || sorted.last().scheduler_id <= queue.scheduler_id {
        if other == queue {
            assert(after[sorted.len() as int] == other);
        } else {
            let i = choose|i: int| 0 <= i < sorted.len() && sorted[i] == other;
            assert(after[i] == other);
        }
    } else {
        let front = sorted.drop_last();
        if other == sorted.last() {
            assert(after[after.len() - 1] == other);
        } else {
            if sorted.contains(other) {
                let i = choose|i: int| 0 <= i < sorted.len() && sorted[i] == other;
                assert(front[i] == other);
            }
            lemma_placed_holds(front, queue, other);
            let placed = super::prometheus::placed(front, queue);
            let i = choose|i: int| 0 <= i < placed.len() && placed[i] == other;
            assert(after[i] == other);
        }
    }
}

proof fn lemma_sorting_loses_nothing(queues: Seq<RunQueueSnapshot>, queue: RunQueueSnapshot)
    requires
        queues.contains(queue),
    ensures
        super::prometheus::by_scheduler(queues).contains(queue),
    decreases queues.len(),
{
    let i = choose|i: int| 0 <= i < queues.len() && queues[i] == queue;
    let front = queues.drop_last();
    if i < queues.len() - 1 {
        assert(front[i] == queue);
        lemma_sorting_loses_nothing(front, queue);
    }
    lemma_placed_holds(super::prometheus::by_scheduler(front), queues.last(), queue);
}

/// The exposition tells every number of every run queue under the name of its metric, with the
/// scheduler as label.
pub proof fn lemma_the_exposition_tells_every_run_queue(
    metrics: RuntimeMetricsSnapshot,
    observed_at: Seq<char>,
    utilization: Seq<char>,
    queue: RunQueueSnapshot,
)
    requires
        metrics.run_queues@.contains(queue),
    ensures
        ({
            let text = metrics.prometheus_text(observed_at, utilization);
            let id = crate::text::decimal(queue.scheduler_id as nat);
            let label = "scheduler_id"@;
            &&& says(
                text,
                labelled_sample(
                    "lamport_scheduler_runnable_actors"@,
                    label,
                    id,
                    queue.runnable as nat,
                ),
            )
            &&& says(
                text,
                labelled_sample(
                    "lamport_scheduler_waiting_actors"@,
                    label,
                    id,
                    queue.waiting as nat,
                ),
            )
            &&& says(
                text,
                labelled_sample(
                    "lamport_scheduler_injected_total"@,
                    label,
                    id,
                    queue.injected as nat,
                ),
            )
            &&& says(
                text,
                labelled_sample("lamport_scheduler_stolen_total"@, label, id, queue.stolen as nat),
            )
        }),
{
    let sorted = super::prometheus::by_scheduler(metrics.run_queues@);
    lemma_sorting_loses_nothing(metrics.run_queues@, queue);
    let at = choose|at: int| 0 <= at < sorted.len() && sorted[at] == queue;
    lemma_queue_says(queue);
    let front = metrics.gauges_text(observed_at, utilization) + metrics.counters_text()
        + metrics.statuses_text() + super::prometheus::queue_headers_text();
    let back = super::prometheus::queues_text(sorted);
    assert(metrics.prometheus_text(observed_at, utilization) == front + back);
    assert forall|part: Seq<char>| #[trigger]
        says(super::prometheus::queue_text(queue), part) implies says(front + back, part) by {
        lemma_queues_say(sorted, at, part);
        lemma_says_behind(front, back, part);
    }
}

/// A status is counted for exactly the actors that have it.
pub proof fn lemma_how_statuses_are_counted(actors: Seq<SnapshotView>, status: ActorStatus)
    ensures
        super::topology::count_of(actors, status) == actors.filter(
            |actor: SnapshotView| actor.status == status,
        ).len(),
    decreases actors.len(),
{
    reveal(Seq::filter);
    if actors.len() > 0 {
        lemma_how_statuses_are_counted(actors.drop_last(), status);
    }
}

/// The total over all mailboxes grows with each actor by the length of its mailbox.
pub proof fn lemma_how_mailboxes_add_up(actors: Seq<SnapshotView>, actor: SnapshotView)
    ensures
        super::topology::mailbox_total(Seq::empty()) == 0,
        super::topology::mailbox_total(actors.push(actor)) == super::topology::mailbox_total(actors)
            + actor.metrics.mailbox_len,
{
    assert(actors.push(actor).drop_last() =~= actors);
}

/// The longest mailbox is the mailbox of some actor, and none is longer.
pub proof fn lemma_which_mailbox_is_the_longest(actors: Seq<SnapshotView>)
    ensures
        forall|i: int|
            0 <= i < actors.len() ==> (#[trigger] actors[i]).metrics.mailbox_len
                <= super::topology::mailbox_max(actors),
        actors.len() > 0 ==> exists|i: int|
            0 <= i < actors.len() && (#[trigger] actors[i]).metrics.mailbox_len
                == super::topology::mailbox_max(actors),
        actors.len() == 0 ==> super::topology::mailbox_max(actors) == 0,
    decreases actors.len(),
{
    if actors.len() > 0 {
        let front = actors.drop_last();
        lemma_which_mailbox_is_the_longest(front);
        assert forall|i: int| 0 <= i < actors.len() implies (
        #[trigger] actors[i]).metrics.mailbox_len <= super::topology::mailbox_max(actors) by {
            if i < front.len() {
                assert(front[i] == actors[i]);
            }
        }
        if super::topology::mailbox_max(actors) == actors.last().metrics.mailbox_len {
            assert(actors[actors.len() - 1].metrics.mailbox_len == super::topology::mailbox_max(
                actors,
            ));
        } else {
            let i = choose|i: int|
                0 <= i < front.len() && (#[trigger] front[i]).metrics.mailbox_len
                    == super::topology::mailbox_max(front);
            assert(actors[i] == front[i]);
        }
    }
}

proof fn lemma_listed_is_finite(actors: Seq<SnapshotView>, part: Set<ActorId>)
    requires
        forall|id: ActorId| #[trigger] part.contains(id) ==> super::topology::is_listed(actors, id),
    ensures
        part.finite(),
{
    let all = actors.map_values(|actor: SnapshotView| actor.id).to_set();
    assert(all.finite()) by {
        vstd::seq_lib::seq_to_set_is_finite(actors.map_values(|actor: SnapshotView| actor.id));
    }
    assert forall|id: ActorId| #[trigger] part.contains(id) implies all.contains(id) by {
        let i = choose|i: int| 0 <= i < actors.len() && (#[trigger] actors[i]).id == id;
        assert(actors.map_values(|actor: SnapshotView| actor.id)[i] == id);
    }
    assert(part.subset_of(all));
    vstd::set_lib::lemma_len_subset(part, all);
}

/// Where actors stand in a tree: an actor is a root exactly when its parent, if it has one, is not
/// there; it is below its parent otherwise; and every actor has a node.
pub proof fn lemma_where_actors_stand_in_a_tree(
    tree: ActorTree,
    actors: Seq<SnapshotView>,
    at: int,
    node: int,
)
    requires
        super::topology::distinct_ids(actors),
        super::topology::is_tree_of(tree, actors),
        0 <= at < actors.len(),
        0 <= node < tree.nodes@.len(),
    ensures
        tree.roots@.contains(actors[at].id) <==> (actors[at].parent is None || forall|i: int|
            0 <= i < actors.len() ==> (#[trigger] actors[i]).id != actors[at].parent->0),
        tree.nodes@[node].children@.contains(actors[at].id) <==> actors[at].parent == Some(
            tree.nodes@[node].actor.id,
        ),
        exists|k: int|
            0 <= k < tree.nodes@.len() && (#[trigger] tree.nodes@[k]).actor.id == actors[at].id,
        exists|i: int|
            0 <= i < actors.len() && #[trigger] actors[i] == tree.nodes@[node].actor@,
{
    let id = actors[at].id;
    let roots = super::topology::roots_of(actors);
    let parent = tree.nodes@[node].actor.id;
    let children = super::topology::children_of(actors, parent);
    let all = super::topology::listed(actors);
    lemma_listed_is_finite(actors, roots);
    lemma_listed_is_finite(actors, children);
    lemma_listed_is_finite(actors, all);
    crate::collections::lemma_finite_set_is_listed(roots);
    crate::collections::lemma_finite_set_is_listed(children);
    crate::collections::lemma_finite_set_is_listed(all);
    assert(tree.roots@.contains(id) == roots.contains(id));
    assert(tree.nodes@[node].children@.contains(id) == children.contains(id));
    assert forall|i: int| 0 <= i < actors.len() && (#[trigger] actors[i]).id == id implies i
        == at by {
        if i < at {
            assert(actors[i].id != actors[at].id);
        } else if at < i {
            assert(actors[at].id != actors[i].id);
        }
    }
    assert(super::topology::is_listed(actors, id));
    assert(all.contains(id));
    let ids = tree.nodes@.map_values(|node: ActorTreeNode| node.actor.id);
    assert(ids.contains(id));
    let k = choose|k: int| 0 <= k < ids.len() && ids[k] == id;
    assert(tree.nodes@[k].actor.id == id);
    assert(actors.contains(tree.nodes@[node].actor@));
}

/// The lifecycle events and the crash reports of a log are its events of that kind, in the order
/// in which they were recorded: one more event is one more of its kind, and of no other kind.
pub proof fn lemma_which_events_are_listed_apart(
    events: Seq<EventView>,
    event: EventView,
    lifecycle: LifecycleView,
    crash: CrashView,
)
    ensures
        event.kind == KindView::Lifecycle(lifecycle) ==> super::events::lifecycle_of(
            events.push(event),
        ) == super::events::lifecycle_of(events).push(lifecycle) && super::events::crashes_of(
            events.push(event),
        ) == super::events::crashes_of(events),
        event.kind == KindView::Crash(crash) ==> super::events::crashes_of(events.push(event))
            == super::events::crashes_of(events).push(crash) && super::events::lifecycle_of(
            events.push(event),
        ) == super::events::lifecycle_of(events),
        super::events::lifecycle_of(Seq::empty()).len() == 0,
        super::events::crashes_of(Seq::empty()).len() == 0,
{
    assert(events.push(event).drop_last() =~= events);
}

/// Which events a cursor hands out, when they are in order: those with its number or a later one,
/// and no other ones. Afterwards it stands behind the last one.
pub proof fn lemma_which_events_are_pending(events: Seq<EventView>, cursor: u64, at: int)
    requires
        super::events::ascending(events),
        0 <= at < events.len(),
    ensures
        events[at].sequence >= cursor ==> super::events::pending(events, cursor).contains(
            events[at],
        ),
        super::events::pending(events, cursor).contains(events[at]) ==> events[at].sequence
            >= cursor,
        events.last().sequence >= cursor && events.last().sequence < u64::MAX
            ==> super::events::advanced(events, cursor) == events.last().sequence + 1,
        events.last().sequence < cursor ==> super::events::advanced(events, cursor) == cursor,
{
    super::events::lemma_seen(events, cursor);
    let first = super::events::seen(events, cursor) as int;
    let rest = super::events::pending(events, cursor);
    if events[at].sequence >= cursor {
        assert(at >= first);
        assert(rest[at - first] == events[at]);
    }
    if rest.contains(events[at]) {
        let i = choose|i: int| 0 <= i < rest.len() && rest[i] == events[at];
        assert(rest[i] == events[first + i]);
        if i > 0 {
            assert(events[first].sequence <= events[first + i].sequence);
        }
    }
    if first < events.len() {
        assert(rest.last() == events.last());
        if first < events.len() - 1 {
            assert(events[first].sequence <= events[events.len() - 1].sequence);
        }
    } else {
        assert(events[events.len() - 1].sequence < cursor);
    }
}

} // verus!
