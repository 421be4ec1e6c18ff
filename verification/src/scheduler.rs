//! Scheduler configuration, placement and metrics.

use vstd::prelude::*;

use crate::types::ActorId;

verus! {

/// Scheduler pool types for normal and dirty work.
#[derive(Debug, Clone, Copy, PartialEq, Eq, Structural, Hash)]
pub enum PoolKind {
    /// Normal actor turns on the main schedulers.
    Normal,
    /// Blocking I/O work that must not stall the main schedulers.
    BlockingIo,
    /// CPU-heavy work that must not monopolize actor turns.
    BlockingCpu,
}

/// Static scheduler configuration for a runtime instance.
#[derive(Debug, Clone, Copy, PartialEq, Eq, Structural)]
pub struct SchedulerConfig {
    /// Number of normal scheduler threads.
    pub scheduler_count: usize,
    /// Maximum number of live actors allowed in the runtime.
    pub max_actors: usize,
    /// Default bounded mailbox capacity for newly spawned actors.
    pub default_mailbox_capacity: usize,
    /// Slots reserved for runtime-originated envelopes such as replies and timeouts.
    pub mailbox_runtime_reserve: usize,
    /// Maximum entries per local run queue before backpressure is needed.
    pub local_run_queue_capacity: usize,
    /// Maximum entries in the global inject queue.
    pub inject_queue_capacity: usize,
    /// Number of actors to steal at a time from another scheduler.
    pub steal_batch_size: usize,
    /// Maximum actor turns before a scheduler rechecks global work.
    pub actor_turn_budget: u32,
    /// Dedicated dirty I/O worker threads.
    pub blocking_io_threads: usize,
    /// Dedicated dirty CPU worker threads.
    pub blocking_cpu_threads: usize,
}

impl SchedulerConfig {
    /// The default configuration on a machine that runs `scheduler_count` threads at a time.
    pub open spec fn spec_for_parallelism(scheduler_count: usize) -> SchedulerConfig {
        SchedulerConfig {
            scheduler_count,
            max_actors: 65_536,
            default_mailbox_capacity: 1_024,
            mailbox_runtime_reserve: 32,
            local_run_queue_capacity: 4_096,
            inject_queue_capacity: 16_384,
            steal_batch_size: 64,
            actor_turn_budget: 64,
            blocking_io_threads: if scheduler_count < 4 {
                4
            } else {
                scheduler_count
            },
            blocking_cpu_threads: if scheduler_count < 2 {
                2
            } else {
                scheduler_count
            },
        }
    }

    /// Returns the default configuration for a machine that runs `scheduler_count` threads at a
    /// time.
    pub fn for_parallelism(scheduler_count: usize) -> (config: Self)
        ensures
            config == Self::spec_for_parallelism(scheduler_count),
    {
        SchedulerConfig {
            scheduler_count,
            max_actors: 65_536,
            default_mailbox_capacity: 1_024,
            mailbox_runtime_reserve: 32,
            local_run_queue_capacity: 4_096,
            inject_queue_capacity: 16_384,
            steal_batch_size: 64,
            actor_turn_budget: 64,
            blocking_io_threads: if scheduler_count < 4 {
                4
            } else {
                scheduler_count
            },
            blocking_cpu_threads: if scheduler_count < 2 {
                2
            } else {
                scheduler_count
            },
        }
    }
}

/// Observable run-queue state for one scheduler thread.
#[derive(Debug, Clone, Copy, PartialEq, Eq, Structural)]
pub struct RunQueueSnapshot {
    /// Scheduler identifier.
    pub scheduler_id: usize,
    /// Number of runnable actors.
    pub runnable: usize,
    /// Number of waiting actors owned by the scheduler.
    pub waiting: usize,
    /// Number of actors received through the inject queue.
    pub injected: u64,
    /// Number of actors stolen from other schedulers.
    pub stolen: u64,
}

impl Default for RunQueueSnapshot {
    fn default() -> (snapshot: Self)
        ensures
            snapshot == (RunQueueSnapshot {
                scheduler_id: 0,
                runnable: 0,
                waiting: 0,
                injected: 0,
                stolen: 0,
            }),
    {
        RunQueueSnapshot { scheduler_id: 0, runnable: 0, waiting: 0, injected: 0, stolen: 0 }
    }
}

/// Aggregate runtime metrics for Observer-style dashboards.
#[derive(Debug, Clone, Copy, PartialEq, Eq, Structural)]
pub struct SchedulerMetrics {
    /// Ratio of busy to total scheduler time in the sample window, as the bits of a 32-bit
    /// floating-point number.
    pub utilization: u32,
    /// Actor turns executed on normal schedulers.
    pub normal_turns: u64,
    /// Idle polling turns.
    pub idle_turns: u64,
    /// Jobs dispatched to the dirty I/O pool.
    pub blocking_io_jobs: u64,
    /// Jobs dispatched to the dirty CPU pool.
    pub blocking_cpu_jobs: u64,
}

impl Default for SchedulerMetrics {
    fn default() -> (metrics: Self)
        ensures
            metrics == (SchedulerMetrics {
                utilization: 0,
                normal_turns: 0,
                idle_turns: 0,
                blocking_io_jobs: 0,
                blocking_cpu_jobs: 0,
            }),
    {
        SchedulerMetrics {
            utilization: 0,
            normal_turns: 0,
            idle_turns: 0,
            blocking_io_jobs: 0,
            blocking_cpu_jobs: 0,
        }
    }
}

/// One more on a 64-bit counter, which wraps around after 2^64 steps.
pub open spec fn bumped(counter: u64) -> u64 {
    if counter == u64::MAX {
        0
    } else {
        (counter + 1) as u64
    }
}

pub(crate) fn bump(counter: u64) -> (next: u64)
    ensures
        next == bumped(counter),
{
    counter.wrapping_add(1)
}

impl SchedulerMetrics {
    /// The metrics after one more job on a pool.
    pub open spec fn with_job(self, pool: PoolKind) -> SchedulerMetrics {
        match pool {
            PoolKind::BlockingIo => SchedulerMetrics {
                blocking_io_jobs: bumped(self.blocking_io_jobs),
                ..self
            },
            PoolKind::BlockingCpu => SchedulerMetrics {
                blocking_cpu_jobs: bumped(self.blocking_cpu_jobs),
                ..self
            },
            PoolKind::Normal => self,
        }
    }

    /// Counts a job submitted to a pool.
    pub(crate) fn count_job(&mut self, pool: PoolKind)
        ensures
            *final(self) == old(self).with_job(pool),
    {
        match pool {
            PoolKind::BlockingIo => {
                self.blocking_io_jobs = bump(self.blocking_io_jobs);
            },
            PoolKind::BlockingCpu => {
                self.blocking_cpu_jobs = bump(self.blocking_cpu_jobs);
            },
            PoolKind::Normal => {},
        }
    }
}

/// Enqueue or wakeup failure for the scheduler.
#[derive(Debug, Clone, Copy, PartialEq, Eq, Structural)]
pub enum ScheduleError {
    /// The actor does not exist.
    NoProc(ActorId),
    /// The target queue is full.
    QueueFull {
        /// Scheduler identifier for the full queue.
        scheduler_id: usize,
        /// The actor that could not be enqueued.
        actor: ActorId,
    },
}

/// The default configuration, for every number of threads: there are as many schedulers as
/// threads, at least four threads for blocking I/O and two for blocking computations, and the
/// other limits do not depend on the machine.
pub proof fn lemma_default_configuration(threads: usize)
    ensures
        ({
            let config = SchedulerConfig::spec_for_parallelism(threads);
            &&& config.scheduler_count == threads
            &&& config.blocking_io_threads >= 4 && config.blocking_io_threads >= threads
            &&& config.blocking_io_threads == 4 || config.blocking_io_threads == threads
            &&& config.blocking_cpu_threads >= 2 && config.blocking_cpu_threads >= threads
            &&& config.blocking_cpu_threads == 2 || config.blocking_cpu_threads == threads
            &&& config.max_actors == 65_536
            &&& config.default_mailbox_capacity == 1_024
            &&& config.mailbox_runtime_reserve == 32
            &&& config.local_run_queue_capacity == 4_096
            &&& config.inject_queue_capacity == 16_384
            &&& config.steal_batch_size == 64
            &&& config.actor_turn_budget == 64
        }),
{
}

/// A job counts for the pool that it runs on, and for no other one; actor turns are no jobs.
pub proof fn lemma_jobs_are_counted_by_pool(metrics: SchedulerMetrics)
    ensures
        metrics.with_job(PoolKind::Normal) == metrics,
        ({
            let after = metrics.with_job(PoolKind::BlockingIo);
            &&& metrics.blocking_io_jobs < u64::MAX ==> after.blocking_io_jobs
                == metrics.blocking_io_jobs + 1
            &&& after.blocking_cpu_jobs == metrics.blocking_cpu_jobs
            &&& after.normal_turns == metrics.normal_turns
            &&& after.idle_turns == metrics.idle_turns
        }),
        ({
            let after = metrics.with_job(PoolKind::BlockingCpu);
            &&& metrics.blocking_cpu_jobs < u64::MAX ==> after.blocking_cpu_jobs
                == metrics.blocking_cpu_jobs + 1
            &&& after.blocking_io_jobs == metrics.blocking_io_jobs
            &&& after.normal_turns == metrics.normal_turns
            &&& after.idle_turns == metrics.idle_turns
        }),
{
}

/// A counter goes up by one until it starts again at zero.
pub proof fn lemma_counters_go_up(counter: u64)
    ensures
        counter < u64::MAX ==> bumped(counter) == counter + 1,
        bumped(u64::MAX) == 0,
{
}

} // verus!
