//! Prometheus text exposition.

use vstd::prelude::*;

use crate::scheduler::RunQueueSnapshot;
use crate::text::push_decimal;

use super::types::RuntimeMetricsSnapshot;

verus! {

/// The two header lines of a metric family.
pub open spec fn header_text(name: Seq<char>, help: Seq<char>, kind: Seq<char>) -> Seq<char> {
    "# HELP "@ + name + " "@ + help + "\n# TYPE "@ + name + " "@ + kind + "\n"@
}

/// A metric family with a single sample.
pub open spec fn scalar_text(
    name: Seq<char>,
    help: Seq<char>,
    kind: Seq<char>,
    value: Seq<char>,
) -> Seq<char> {
    header_text(name, help, kind) + name + " "@ + value + "\n"@
}

/// A sample with one label.
pub open spec fn labelled_text(
    name: Seq<char>,
    label: Seq<char>,
    label_value: Seq<char>,
    value: Seq<char>,
) -> Seq<char> {
    name + "{"@ + label + "=\""@ + label_value + "\"} "@ + value + "\n"@
}

/// Adds a run queue to queues that are sorted by scheduler, behind those of the same scheduler.
pub open spec fn placed(sorted: Seq<RunQueueSnapshot>, queue: RunQueueSnapshot) -> Seq<
    RunQueueSnapshot,
>
    decreases sorted.len(),
{
    if sorted.len() == 0 || sorted.last().scheduler_id <= queue.scheduler_id {
        sorted.push(queue)
    } else {
        placed(sorted.drop_last(), queue).push(sorted.last())
    }
}

/// Run queues in the order of their schedulers; those of the same scheduler keep their order.
pub open spec fn by_scheduler(queues: Seq<RunQueueSnapshot>) -> Seq<RunQueueSnapshot>
    decreases queues.len(),
{
    if queues.len() == 0 {
        Seq::empty()
    } else {
        placed(by_scheduler(queues.drop_last()), queues.last())
    }
}

/// The samples of one run queue.
pub open spec fn queue_text(queue: RunQueueSnapshot) -> Seq<char> {
    let id = crate::text::decimal(queue.scheduler_id as nat);
    labelled_text(
        "lamport_scheduler_runnable_actors"@,
        "scheduler_id"@,
        id,
        crate::text::decimal(queue.runnable as nat),
    ) + labelled_text(
        "lamport_scheduler_waiting_actors"@,
        "scheduler_id"@,
        id,
        crate::text::decimal(queue.waiting as nat),
    ) + labelled_text(
        "lamport_scheduler_injected_total"@,
        "scheduler_id"@,
        id,
        crate::text::decimal(queue.injected as nat),
    ) + labelled_text(
        "lamport_scheduler_stolen_total"@,
        "scheduler_id"@,
        id,
        crate::text::decimal(queue.stolen as nat),
    )
}

/// The samples of run queues, one after the other.
pub open spec fn queues_text(queues: Seq<RunQueueSnapshot>) -> Seq<char>
    decreases queues.len(),
{
    if queues.len() == 0 {
        Seq::empty()
    } else {
        queues_text(queues.drop_last()) + queue_text(queues.last())
    }
}

/// The headers of the families that have one sample for each scheduler.
pub open spec fn queue_headers_text() -> Seq<char> {
    header_text(
        "lamport_scheduler_runnable_actors"@,
        "Number of runnable actors assigned to each scheduler."@,
        "gauge"@,
    ) + header_text(
        "lamport_scheduler_waiting_actors"@,
        "Number of waiting actors assigned to each scheduler."@,
        "gauge"@,
    ) + header_text(
        "lamport_scheduler_injected_total"@,
        "Actors injected onto each scheduler from the global queue."@,
        "counter"@,
    ) + header_text(
        "lamport_scheduler_stolen_total"@,
        "Actors stolen by each scheduler."@,
        "counter"@,
    )
}

impl RuntimeMetricsSnapshot {
    /// The families with a single gauge sample.
    pub open spec fn gauges_text(
        self,
        observed_at: Seq<char>,
        utilization: Seq<char>,
    ) -> Seq<char> {
        scalar_text(
            "lamport_runtime_observed_at_seconds"@,
            "Unix timestamp when the runtime metrics snapshot was captured."@,
            "gauge"@,
            observed_at,
        ) + scalar_text(
            "lamport_runtime_live_actors"@,
            "Current number of live actors in the runtime."@,
            "gauge"@,
            crate::text::decimal(self.live_actors as nat),
        ) + scalar_text(
            "lamport_runtime_completed_actors"@,
            "Number of completed actor snapshots retained for introspection."@,
            "gauge"@,
            crate::text::decimal(self.completed_actors as nat),
        ) + scalar_text(
            "lamport_runtime_mailbox_messages"@,
            "Total number of messages queued across live actor mailboxes."@,
            "gauge"@,
            crate::text::decimal(self.total_mailbox_len as nat),
        ) + scalar_text(
            "lamport_runtime_mailbox_max_messages"@,
            "Largest mailbox length across live actors."@,
            "gauge"@,
            crate::text::decimal(self.max_mailbox_len as nat),
        ) + scalar_text(
            "lamport_scheduler_utilization_ratio"@,
            "Estimated fraction of busy scheduler time over the runtime lifetime."@,
            "gauge"@,
            utilization,
        )
    }

    /// The families with a single counter sample.
    pub open spec fn counters_text(self) -> Seq<char> {
        scalar_text(
            "lamport_scheduler_normal_turns_total"@,
            "Total actor turns executed on normal schedulers."@,
            "counter"@,
            crate::text::decimal(self.scheduler_metrics.normal_turns as nat),
        ) + scalar_text(
            "lamport_scheduler_idle_turns_total"@,
            "Total idle polling turns observed by schedulers."@,
            "counter"@,
            crate::text::decimal(self.scheduler_metrics.idle_turns as nat),
        ) + scalar_text(
            "lamport_scheduler_blocking_io_jobs_total"@,
            "Total jobs submitted to the blocking I/O pool."@,
            "counter"@,
            crate::text::decimal(self.scheduler_metrics.blocking_io_jobs as nat),
        ) + scalar_text(
            "lamport_scheduler_blocking_cpu_jobs_total"@,
            "Total jobs submitted to the blocking CPU pool."@,
            "counter"@,
            crate::text::decimal(self.scheduler_metrics.blocking_cpu_jobs as nat),
        )
    }

    /// One sample of the family of actor statuses.
    pub open spec fn status_text(status: Seq<char>, count: usize) -> Seq<char> {
        labelled_text(
            "lamport_runtime_actor_status"@,
            "status"@,
            status,
            crate::text::decimal(count as nat),
        )
    }

    /// The family of actor statuses.
    pub open spec fn statuses_text(self) -> Seq<char> {
        header_text(
            "lamport_runtime_actor_status"@,
            "Number of actors in each lifecycle state."@,
            "gauge"@,
        ) + Self::status_text("starting"@, self.starting_actors) + Self::status_text(
            "runnable"@,
            self.runnable_actors,
        ) + Self::status_text("waiting"@, self.waiting_actors) + Self::status_text(
            "running"@,
            self.running_actors,
        ) + Self::status_text("exiting"@, self.exiting_actors) + Self::status_text(
            "dead"@,
            self.dead_actors,
        )
    }

    /// The whole exposition, given the texts of the two values that are not integers.
    pub open spec fn prometheus_text(
        self,
        observed_at: Seq<char>,
        utilization: Seq<char>,
    ) -> Seq<char> {
        self.gauges_text(observed_at, utilization) + self.counters_text() + self.statuses_text()
            + queue_headers_text() + queues_text(by_scheduler(self.run_queues@))
    }

    /// Encodes the snapshot using Prometheus text exposition format.
    ///
    /// The caller renders the two floating-point samples: the capture time in seconds and the
    /// utilization.
    pub fn to_prometheus(&self, observed_at: &str, utilization: &str) -> (text: String)
        ensures
            text@ == self.prometheus_text(observed_at@, utilization@),
    {
        let mut output = String::new();
        self.push_gauges(&mut output, observed_at, utilization);
        self.push_counters(&mut output);
        self.push_statuses(&mut output);
        push_queue_headers(&mut output);
        let queues = sorted_queues(&self.run_queues);
        push_queues(&mut output, &queues);
        assert(output@ =~= self.prometheus_text(observed_at@, utilization@));
        output
    }

    fn push_gauges(&self, output: &mut String, observed_at: &str, utilization: &str)
        ensures
            final(output)@ == old(output)@ + self.gauges_text(observed_at@, utilization@),
    {
        write_scalar_metric(
            output,
            "lamport_runtime_observed_at_seconds",
            "Unix timestamp when the runtime metrics snapshot was captured.",
            "gauge",
            observed_at,
        );
        write_count(
            output,
            "lamport_runtime_live_actors",
            "Current number of live actors in the runtime.",
            "gauge",
            self.live_actors as u64,
        );
        write_count(
            output,
            "lamport_runtime_completed_actors",
            "Number of completed actor snapshots retained for introspection.",
            "gauge",
            self.completed_actors as u64,
        );
        write_count(
            output,
            "lamport_runtime_mailbox_messages",
            "Total number of messages queued across live actor mailboxes.",
            "gauge",
            self.total_mailbox_len as u64,
        );
        write_count(
            output,
            "lamport_runtime_mailbox_max_messages",
            "Largest mailbox length across live actors.",
            "gauge",
            self.max_mailbox_len as u64,
        );
        write_scalar_metric(
            output,
            "lamport_scheduler_utilization_ratio",
            "Estimated fraction of busy scheduler time over the runtime lifetime.",
            "gauge",
            utilization,
        );
        assert(output@ =~= old(output)@ + self.gauges_text(observed_at@, utilization@));
    }

    fn push_counters(&self, output: &mut String)
        ensures
            final(output)@ == old(output)@ + self.counters_text(),
    {
        write_count(
            output,
            "lamport_scheduler_normal_turns_total",
            "Total actor turns executed on normal schedulers.",
            "counter",
            self.scheduler_metrics.normal_turns,
        );
        write_count(
            output,
            "lamport_scheduler_idle_turns_total",
            "Total idle polling turns observed by schedulers.",
            "counter",
            self.scheduler_metrics.idle_turns,
        );
        write_count(
            output,
            "lamport_scheduler_blocking_io_jobs_total",
            "Total jobs submitted to the blocking I/O pool.",
            "counter",
            self.scheduler_metrics.blocking_io_jobs,
        );
        write_count(
            output,
            "lamport_scheduler_blocking_cpu_jobs_total",
            "Total jobs submitted to the blocking CPU pool.",
            "counter",
            self.scheduler_metrics.blocking_cpu_jobs,
        );
        assert(output@ =~= old(output)@ + self.counters_text());
    }

    fn push_statuses(&self, output: &mut String)
        ensures
            final(output)@ == old(output)@ + self.statuses_text(),
    {
        write_metric_header(
            output,
            "lamport_runtime_actor_status",
            "Number of actors in each lifecycle state.",
            "gauge",
        );
        write_status(output, "starting", self.starting_actors);
        write_status(output, "runnable", self.runnable_actors);
        write_status(output, "waiting", self.waiting_actors);
        write_status(output, "running", self.running_actors);
        write_status(output, "exiting", self.exiting_actors);
        write_status(output, "dead", self.dead_actors);
        assert(output@ =~= old(output)@ + self.statuses_text());
    }
}

fn write_metric_header(output: &mut String, name: &str, help: &str, kind: &str)
    ensures
        final(output)@ == old(output)@ + header_text(name@, help@, kind@),
{
    output.append("# HELP ");
    output.append(name);
    output.append(" ");
    output.append(help);
    output.append("\n# TYPE ");
    output.append(name);
    output.append(" ");
    output.append(kind);
    output.append("\n");
    assert(output@ =~= old(output)@ + header_text(name@, help@, kind@));
}

fn write_scalar_metric(output: &mut String, name: &str, help: &str, kind: &str, value: &str)
    ensures
        final(output)@ == old(output)@ + scalar_text(name@, help@, kind@, value@),
{
    write_metric_header(output, name, help, kind);
    output.append(name);
    output.append(" ");
    output.append(value);
    output.append("\n");
    assert(output@ =~= old(output)@ + scalar_text(name@, help@, kind@, value@));
}

fn write_count(output: &mut String, name: &str, help: &str, kind: &str, value: u64)
    ensures
        final(output)@ == old(output)@ + scalar_text(
            name@,
            help@,
            kind@,
            crate::text::decimal(value as nat),
        ),
{
    let mut text = String::new();
    push_decimal(&mut text, value);
    assert(text@ =~= crate::text::decimal(value as nat));
    write_scalar_metric(output, name, help, kind, text.as_str());
}

fn write_single_label_metric(
    output: &mut String,
    name: &str,
    label: &str,
    label_value: &str,
    value: u64,
)
    ensures
        final(output)@ == old(output)@ + labelled_text(
            name@,
            label@,
            label_value@,
            crate::text::decimal(value as nat),
        ),
{
    output.append(name);
    output.append("{");
    output.append(label);
    output.append("=\"");
    output.append(label_value);
    output.append("\"} ");
    push_decimal(output, value);
    output.append("\n");
    assert(output@ =~= old(output)@ + labelled_text(
        name@,
        label@,
        label_value@,
        crate::text::decimal(value as nat),
    ));
}

fn write_status(output: &mut String, status: &str, count: usize)
    ensures
        final(output)@ == old(output)@ + RuntimeMetricsSnapshot::status_text(status@, count),
{
    write_single_label_metric(
        output,
        "lamport_runtime_actor_status",
        "status",
        status,
        count as u64,
    );
}

fn push_queue_headers(output: &mut String)
    ensures
        final(output)@ == old(output)@ + queue_headers_text(),
{
    write_metric_header(
        output,
        "lamport_scheduler_runnable_actors",
        "Number of runnable actors assigned to each scheduler.",
        "gauge",
    );
    write_metric_header(
        output,
        "lamport_scheduler_waiting_actors",
        "Number of waiting actors assigned to each scheduler.",
        "gauge",
    );
    write_metric_header(
        output,
        "lamport_scheduler_injected_total",
        "Actors injected onto each scheduler from the global queue.",
        "counter",
    );
    write_metric_header(
        output,
        "lamport_scheduler_stolen_total",
        "Actors stolen by each scheduler.",
        "counter",
    );
    assert(output@ =~= old(output)@ + queue_headers_text());
}

proof fn lemma_placed(
    sorted: Seq<RunQueueSnapshot>,
    queue: RunQueueSnapshot,
    at: int,
)
    requires
        0 <= at <= sorted.len(),
        at > 0 ==> sorted[at - 1].scheduler_id <= queue.scheduler_id,
        forall|i: int| at <= i < sorted.len() ==> (#[trigger] sorted[i]).scheduler_id
            > queue.scheduler_id,
    ensures
        placed(sorted, queue) == sorted.insert(at, queue),
    decreases sorted.len(),
{
    if at == sorted.len() {
        assert(sorted.insert(at, queue) =~= sorted.push(queue));
    } else {
        let last = sorted[sorted.len() - 1];
        assert(last.scheduler_id > queue.scheduler_id);
        lemma_placed(sorted.drop_last(), queue, at);
        assert(sorted.insert(at, queue) =~= sorted.drop_last().insert(at, queue).push(last));
    }
}

/// Sorts run queues by scheduler.
fn sorted_queues(queues: &Vec<RunQueueSnapshot>) -> (sorted: Vec<RunQueueSnapshot>)
    ensures
        sorted@ == by_scheduler(queues@),
{
    let mut sorted: Vec<RunQueueSnapshot> = Vec::new();
    let mut next: usize = 0;
    while next < queues.len()
        invariant
            next <= queues@.len(),
            sorted@ == by_scheduler(queues@.take(next as int)),
        decreases queues@.len() - next,
    {
        let queue = queues[next];
        let mut at: usize = sorted.len();
        while at > 0 && sorted[at - 1].scheduler_id > queue.scheduler_id
            invariant
                at <= sorted@.len(),
                forall|i: int| at <= i < sorted@.len() ==> (#[trigger] sorted@[i]).scheduler_id
                    > queue.scheduler_id,
            decreases at,
        {
            at = at - 1;
        }
        proof {
            lemma_placed(sorted@, queue, at as int);
            assert(queues@.take(next + 1).drop_last() =~= queues@.take(next as int));
        }
        sorted.insert(at, queue);
        next = next + 1;
    }
    assert(queues@.take(next as int) =~= queues@);
    sorted
}

fn push_queue(output: &mut String, queue: &RunQueueSnapshot)
    ensures
        final(output)@ == old(output)@ + queue_text(*queue),
{
    let mut id = String::new();
    push_decimal(&mut id, queue.scheduler_id as u64);
    assert(id@ =~= crate::text::decimal(queue.scheduler_id as nat));
    write_single_label_metric(
        output,
        "lamport_scheduler_runnable_actors",
        "scheduler_id",
        id.as_str(),
        queue.runnable as u64,
    );
    write_single_label_metric(
        output,
        "lamport_scheduler_waiting_actors",
        "scheduler_id",
        id.as_str(),
        queue.waiting as u64,
    );
    write_single_label_metric(
        output,
        "lamport_scheduler_injected_total",
        "scheduler_id",
        id.as_str(),
        queue.injected,
    );
    write_single_label_metric(
        output,
        "lamport_scheduler_stolen_total",
        "scheduler_id",
        id.as_str(),
        queue.stolen,
    );
    assert(output@ =~= old(output)@ + queue_text(*queue));
}

fn push_queues(output: &mut String, queues: &Vec<RunQueueSnapshot>)
    ensures
        final(output)@ == old(output)@ + queues_text(queues@),
{
    let mut next: usize = 0;
    assert(output@ =~= old(output)@ + queues_text(queues@.take(0)));
    while next < queues.len()
        invariant
            next <= queues@.len(),
            output@ == old(output)@ + queues_text(queues@.take(next as int)),
        decreases queues@.len() - next,
    {
        push_queue(output, &queues[next]);
        proof {
            assert(queues@.take(next + 1).drop_last() =~= queues@.take(next as int));
            assert(output@ =~= old(output)@ + queues_text(queues@.take(next + 1)));
        }
        next = next + 1;
    }
    assert(queues@.take(next as int) =~= queues@);
}

/// Run queues that are in the order of their schedulers already are exported in the order in
/// which they stand.
pub proof fn lemma_sorting_keeps_ordered_queues(queues: Seq<RunQueueSnapshot>)
    requires
        ordered(queues),
    ensures
        by_scheduler(queues) == queues,
    decreases queues.len(),
{
    if queues.len() > 0 {
        lemma_sorting_keeps_ordered_queues(queues.drop_last());
        assert(queues.drop_last().push(queues.last()) =~= queues);
    }
}

/// Whether run queues stand in the order of their schedulers.
pub open spec fn ordered(queues: Seq<RunQueueSnapshot>) -> bool {
    forall|i: int, j: int|
        0 <= i < j < queues.len() ==> (#[trigger] queues[i]).scheduler_id <= (
        #[trigger] queues[j]).scheduler_id
}

/// The run queues of one scheduler, in the order in which they stand.
pub open spec fn queues_of(queues: Seq<RunQueueSnapshot>, scheduler_id: usize) -> Seq<
    RunQueueSnapshot,
> {
    queues.filter(|queue: RunQueueSnapshot| queue.scheduler_id == scheduler_id)
}

proof fn lemma_one_more_queue(
    queues: Seq<RunQueueSnapshot>,
    queue: RunQueueSnapshot,
    scheduler_id: usize,
)
    ensures
        queues_of(queues.push(queue), scheduler_id) == (if queue.scheduler_id == scheduler_id {
            queues_of(queues, scheduler_id).push(queue)
        } else {
            queues_of(queues, scheduler_id)
        }),
{
    reveal(Seq::filter);
    assert(queues.push(queue).drop_last() =~= queues);
}

proof fn lemma_placing(
    sorted: Seq<RunQueueSnapshot>,
    queue: RunQueueSnapshot,
    scheduler_id: usize,
)
    requires
        ordered(sorted),
    ensures
        ordered(placed(sorted, queue)),
        placed(sorted, queue).to_multiset() == sorted.to_multiset().insert(queue),
        placed(sorted, queue).len() == sorted.len() + 1,
        forall|i: int|
            0 <= i <= sorted.len() ==> (#[trigger] placed(sorted, queue)[i]).scheduler_id
                <= (if sorted.len() > 0 && sorted.last().scheduler_id > queue.scheduler_id {
                sorted.last().scheduler_id
            } else {
                queue.scheduler_id
            }),
        queues_of(placed(sorted, queue), scheduler_id) == queues_of(
            sorted.push(queue),
            scheduler_id,
        ),
    decreases sorted.len(),
{
    broadcast use vstd::seq_lib::group_to_multiset_ensures;

    if sorted.len() == 0 || sorted.last().scheduler_id <= queue.scheduler_id {
        assert(sorted.push(queue).to_multiset() =~= sorted.to_multiset().insert(queue));
    } else {
        let front = sorted.drop_last();
        let last = sorted.last();
        lemma_placing(front, queue, scheduler_id);
        let rest = placed(front, queue);
        assert(sorted =~= front.push(last));
        assert(rest.push(last).to_multiset() =~= sorted.to_multiset().insert(queue));
        assert forall|i: int| 0 <= i < rest.len() implies (#[trigger] rest[i]).scheduler_id
            <= last.scheduler_id by {
            if front.len() > 0 {
                assert(sorted[front.len() - 1].scheduler_id <= sorted[front.len() as int].scheduler_id);
            }
        }
        lemma_one_more_queue(rest, last, scheduler_id);
        lemma_one_more_queue(front, queue, scheduler_id);
        lemma_one_more_queue(front, last, scheduler_id);
        lemma_one_more_queue(sorted, queue, scheduler_id);
    }
}

/// Run queues are exported in ascending order of their schedulers. All of them are exported, each
/// as often as it was given, and those of one scheduler in the order in which they were given.
pub proof fn lemma_queues_are_exported_by_scheduler(
    queues: Seq<RunQueueSnapshot>,
    scheduler_id: usize,
)
    ensures
        ordered(by_scheduler(queues)),
        by_scheduler(queues).to_multiset() == queues.to_multiset(),
        queues_of(by_scheduler(queues), scheduler_id) == queues_of(queues, scheduler_id),
    decreases queues.len(),
{
    broadcast use vstd::seq_lib::group_to_multiset_ensures;

    if queues.len() == 0 {
        assert(by_scheduler(queues) =~= queues);
    } else {
        let front = queues.drop_last();
        lemma_queues_are_exported_by_scheduler(front, scheduler_id);
        lemma_placing(by_scheduler(front), queues.last(), scheduler_id);
        lemma_one_more_queue(by_scheduler(front), queues.last(), scheduler_id);
        lemma_one_more_queue(front, queues.last(), scheduler_id);
        assert(queues =~= front.push(queues.last()));
        assert(front.push(queues.last()).to_multiset() =~= front.to_multiset().insert(
            queues.last(),
        ));
    }
}

} // verus!
