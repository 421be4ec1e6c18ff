//! Configuration limits.

use vstd::prelude::*;

use crate::mailbox::Mailbox;
use crate::scheduler::SchedulerConfig;

verus! {

/// At least one.
pub open spec fn at_least_one(value: usize) -> usize {
    if value == 0 {
        1
    } else {
        value
    }
}

/// A reserve that leaves at least one of `capacity` slots free.
pub open spec fn capped_reserve(reserve: usize, capacity: usize) -> usize {
    let limit: int = if capacity == 0 {
        0
    } else {
        capacity - 1
    };
    if reserve <= limit {
        reserve
    } else {
        limit as usize
    }
}

fn one_or_more(value: usize) -> (bounded: usize)
    ensures
        bounded == at_least_one(value),
{
    if value == 0 {
        1
    } else {
        value
    }
}

fn cap_reserve(reserve: usize, capacity: usize) -> (bounded: usize)
    ensures
        bounded == capped_reserve(reserve, capacity),
{
    let limit: usize = if capacity == 0 {
        0
    } else {
        capacity - 1
    };
    if reserve <= limit {
        reserve
    } else {
        limit
    }
}

/// A configuration with every limit brought into its range.
pub open spec fn normalized(config: SchedulerConfig) -> SchedulerConfig {
    SchedulerConfig {
        scheduler_count: at_least_one(config.scheduler_count),
        max_actors: at_least_one(config.max_actors),
        default_mailbox_capacity: at_least_one(config.default_mailbox_capacity),
        mailbox_runtime_reserve: capped_reserve(
            config.mailbox_runtime_reserve,
            at_least_one(config.default_mailbox_capacity),
        ),
        actor_turn_budget: if config.actor_turn_budget == 0 {
            1
        } else {
            config.actor_turn_budget
        },
        blocking_io_threads: at_least_one(config.blocking_io_threads),
        blocking_cpu_threads: at_least_one(config.blocking_cpu_threads),
        ..config
    }
}

/// Brings every limit of a configuration into its range.
pub fn normalize_scheduler_config(config: SchedulerConfig) -> (bounded: SchedulerConfig)
    ensures
        bounded == normalized(config),
        bounded.scheduler_count > 0 && bounded.max_actors > 0,
        bounded.mailbox_runtime_reserve < bounded.default_mailbox_capacity,
        config.scheduler_count > 0 ==> bounded.scheduler_count == config.scheduler_count,
        config.max_actors > 0 ==> bounded.max_actors == config.max_actors,
        config.default_mailbox_capacity > config.mailbox_runtime_reserve
            ==> bounded.default_mailbox_capacity == config.default_mailbox_capacity
            && bounded.mailbox_runtime_reserve == config.mailbox_runtime_reserve,
{
    let default_mailbox_capacity: usize = one_or_more(config.default_mailbox_capacity);
    SchedulerConfig {
        scheduler_count: one_or_more(config.scheduler_count),
        max_actors: one_or_more(config.max_actors),
        default_mailbox_capacity,
        mailbox_runtime_reserve: cap_reserve(
            config.mailbox_runtime_reserve,
            default_mailbox_capacity,
        ),
        actor_turn_budget: if config.actor_turn_budget == 0 {
            1
        } else {
            config.actor_turn_budget
        },
        blocking_io_threads: one_or_more(config.blocking_io_threads),
        blocking_cpu_threads: one_or_more(config.blocking_cpu_threads),
        ..config
    }
}

/// A configuration for a single scheduler, with its actor and mailbox limits in range.
pub open spec fn normalized_local(config: SchedulerConfig) -> SchedulerConfig {
    SchedulerConfig {
        scheduler_count: 1,
        max_actors: at_least_one(config.max_actors),
        default_mailbox_capacity: at_least_one(config.default_mailbox_capacity),
        mailbox_runtime_reserve: capped_reserve(
            config.mailbox_runtime_reserve,
            at_least_one(config.default_mailbox_capacity),
        ),
        ..config
    }
}

/// Brings a configuration into the shape that a single scheduler needs.
pub fn normalize_config(config: SchedulerConfig) -> (bounded: SchedulerConfig)
    ensures
        bounded == normalized_local(config),
        bounded.scheduler_count == 1 && bounded.max_actors > 0,
        bounded.mailbox_runtime_reserve < bounded.default_mailbox_capacity,
        config.max_actors > 0 ==> bounded.max_actors == config.max_actors,
        config.default_mailbox_capacity > config.mailbox_runtime_reserve
            ==> bounded.default_mailbox_capacity == config.default_mailbox_capacity
            && bounded.mailbox_runtime_reserve == config.mailbox_runtime_reserve,
{
    let default_mailbox_capacity: usize = one_or_more(config.default_mailbox_capacity);
    SchedulerConfig {
        scheduler_count: 1,
        max_actors: one_or_more(config.max_actors),
        default_mailbox_capacity,
        mailbox_runtime_reserve: cap_reserve(
            config.mailbox_runtime_reserve,
            default_mailbox_capacity,
        ),
        ..config
    }
}

/// The capacity of an actor's mailbox: its own, or else the configured one.
pub open spec fn mailbox_capacity_for(
    config: SchedulerConfig,
    mailbox_capacity: Option<usize>,
) -> usize {
    match mailbox_capacity {
        Some(capacity) => capacity,
        None => config.default_mailbox_capacity,
    }
}

/// Creates the mailbox of a new actor.
pub fn actor_mailbox(config: &SchedulerConfig, mailbox_capacity: Option<usize>) -> (mailbox:
    Mailbox)
    ensures
        mailbox@.len() == 0,
        mailbox.spec_next_sequence() == 0,
        mailbox.limits_ok(),
        mailbox.spec_capacity() == at_least_one(mailbox_capacity_for(*config, mailbox_capacity)),
        mailbox.spec_reserve() == capped_reserve(
            config.mailbox_runtime_reserve,
            mailbox_capacity_for(*config, mailbox_capacity),
        ),
{
    let capacity: usize = match mailbox_capacity {
        Some(capacity) => capacity,
        None => config.default_mailbox_capacity,
    };
    Mailbox::with_limits(capacity, cap_reserve(config.mailbox_runtime_reserve, capacity))
}

/// Bringing limits into range twice changes nothing more.
pub proof fn lemma_normalizing_twice(config: SchedulerConfig)
    ensures
        normalized(normalized(config)) == normalized(config),
        normalized_local(normalized_local(config)) == normalized_local(config),
        normalized(config).mailbox_runtime_reserve < normalized(config).default_mailbox_capacity,
        normalized_local(config).mailbox_runtime_reserve < normalized_local(
            config,
        ).default_mailbox_capacity,
{
}

/// What is brought into range, and how: limits of zero become one, a reserve leaves one slot of the
/// default capacity free, and everything in range stays as it is.
pub proof fn lemma_what_normalizing_changes(config: SchedulerConfig)
    ensures
        ({
            let bounded = normalized(config);
            &&& config.scheduler_count > 0 ==> bounded.scheduler_count == config.scheduler_count
            &&& config.scheduler_count == 0 ==> bounded.scheduler_count == 1
            &&& config.max_actors > 0 ==> bounded.max_actors == config.max_actors
            &&& config.max_actors == 0 ==> bounded.max_actors == 1
            &&& config.default_mailbox_capacity > 0 ==> bounded.default_mailbox_capacity
                == config.default_mailbox_capacity
            &&& config.default_mailbox_capacity == 0 ==> bounded.default_mailbox_capacity == 1
            &&& config.mailbox_runtime_reserve < bounded.default_mailbox_capacity
                ==> bounded.mailbox_runtime_reserve == config.mailbox_runtime_reserve
            &&& config.mailbox_runtime_reserve >= bounded.default_mailbox_capacity
                ==> bounded.mailbox_runtime_reserve == bounded.default_mailbox_capacity - 1
            &&& config.actor_turn_budget > 0 ==> bounded.actor_turn_budget
                == config.actor_turn_budget
            &&& config.actor_turn_budget == 0 ==> bounded.actor_turn_budget == 1
            &&& config.blocking_io_threads > 0 ==> bounded.blocking_io_threads
                == config.blocking_io_threads
            &&& config.blocking_io_threads == 0 ==> bounded.blocking_io_threads == 1
            &&& config.blocking_cpu_threads > 0 ==> bounded.blocking_cpu_threads
                == config.blocking_cpu_threads
            &&& config.blocking_cpu_threads == 0 ==> bounded.blocking_cpu_threads == 1
            &&& bounded.local_run_queue_capacity == config.local_run_queue_capacity
            &&& bounded.inject_queue_capacity == config.inject_queue_capacity
            &&& bounded.steal_batch_size == config.steal_batch_size
        }),
        ({
            let local = normalized_local(config);
            let bounded = normalized(config);
            &&& local.scheduler_count == 1
            &&& local.max_actors == bounded.max_actors
            &&& local.default_mailbox_capacity == bounded.default_mailbox_capacity
            &&& local.mailbox_runtime_reserve == bounded.mailbox_runtime_reserve
            &&& local.actor_turn_budget == config.actor_turn_budget
            &&& local.blocking_io_threads == config.blocking_io_threads
            &&& local.blocking_cpu_threads == config.blocking_cpu_threads
            &&& local.local_run_queue_capacity == config.local_run_queue_capacity
            &&& local.inject_queue_capacity == config.inject_queue_capacity
            &&& local.steal_batch_size == config.steal_batch_size
        }),
{
}

/// How large a mailbox is: as large as its actor asks, or else as large as configured; and a
/// reserve leaves a slot free in every mailbox that has one.
pub proof fn lemma_how_large_a_mailbox_is(config: SchedulerConfig, own: usize, reserve: usize)
    ensures
        mailbox_capacity_for(config, Some(own)) == own,
        mailbox_capacity_for(config, None) == config.default_mailbox_capacity,
        own > 0 ==> capped_reserve(reserve, own) < own && at_least_one(own) == own,
        reserve < own ==> capped_reserve(reserve, own) == reserve,
        reserve >= own && own > 0 ==> capped_reserve(reserve, own) == own - 1,
        capped_reserve(reserve, 0) == 0 && at_least_one(0) == 1,
{
}

} // verus!
