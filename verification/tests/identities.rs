use lamport::context::{ReceiveTimeout, ReceivedEnvelope};
use lamport::internal::config::{normalize_config, normalize_scheduler_config};
use lamport::internal::exit_signal::{classify_exit_signal, ExitDisposition};
use lamport::internal::id::ActorSlotAllocator;
use lamport::internal::shutdown::{shutdown_link_reason, shutdown_signal, ShutdownMode};
use lamport::types::RefSource;
use lamport::{
    ActorId, Envelope, EnvelopeKind, ExitReason, ExitSignal, PoolKind, Ref, SchedulerConfig,
    Shutdown, TaskHandle, TimerFired, TimerToken,
};
use std::time::Duration;

#[test]
fn slots_are_reused_under_new_generations() {
    let mut ids = ActorSlotAllocator::new();
    let first = ids.allocate();
    let second = ids.allocate();
    assert_eq!((first, second), (ActorId::new(0, 0), ActorId::new(1, 0)));
    ids.release(first);
    ids.release(second);
    ids.release(first);
    assert_eq!(ids.allocate(), ActorId::new(1, 1));
    assert_eq!(ids.allocate(), ActorId::new(0, 1));
    assert_eq!(ids.allocate(), ActorId::new(2, 0));
    assert_eq!(first.next_generation(), ActorId::new(0, 1));
}

#[test]
fn references_count_up_from_one() {
    let mut source = RefSource::new();
    let first = Ref::next(&mut source);
    let token = TimerToken::next(&mut source);
    let third = Ref::next(&mut source);
    assert_eq!(first.get(), 1);
    assert_eq!(token.as_ref().get(), 2);
    assert_eq!(third.get(), 3);
    assert_ne!(first, third);
}

#[test]
fn references_and_tokens_are_ordered_by_their_values() {
    let low = Ref::new(7);
    let high = Ref::new(8);
    assert_eq!(low.get(), 7);
    assert_eq!(Ref::new(low.get()), low);
    assert!(low < high);
    assert!(!(high < low));
    assert!(low <= Ref::new(7));
    assert_eq!(low.cmp(&high), low.partial_cmp(&high).unwrap());
    let first = TimerToken::from_ref(low);
    let second = TimerToken::from_ref(high);
    assert!(first < second);
    assert!(second > first);
    assert_eq!(TimerToken::from_ref(first.as_ref()), first);
}

fn signal(reason: ExitReason, linked: bool) -> ExitSignal {
    ExitSignal { from: ActorId::new(1, 0), reason, linked }
}

#[test]
fn exit_signals_are_classified() {
    let kill = signal(ExitReason::Kill, false);
    assert_eq!(classify_exit_signal(true, &kill), ExitDisposition::KillNow);
    let boom = signal(ExitReason::Error("boom".into()), true);
    assert_eq!(classify_exit_signal(false, &boom), ExitDisposition::KillNow);
    assert_eq!(classify_exit_signal(true, &boom), ExitDisposition::Enqueue);
    let normal = signal(ExitReason::Normal, true);
    assert_eq!(classify_exit_signal(false, &normal), ExitDisposition::Ignore);
    assert_eq!(classify_exit_signal(true, &normal), ExitDisposition::Enqueue);
    let unlinked = signal(ExitReason::Shutdown, false);
    assert_eq!(classify_exit_signal(false, &unlinked), ExitDisposition::Enqueue);
}

#[test]
fn kill_of_a_shutdown_looks_like_a_shutdown_to_links() {
    assert_eq!(shutdown_link_reason(true, &ExitReason::Kill), ExitReason::Shutdown);
    assert_eq!(shutdown_link_reason(false, &ExitReason::Kill), ExitReason::Kill);
    assert_eq!(shutdown_link_reason(true, &ExitReason::NoProc), ExitReason::NoProc);
    assert_eq!(ShutdownMode::from_policy(&Shutdown::BrutalKill), ShutdownMode::ForceKill);
    let delay = Duration::from_millis(3);
    assert_eq!(
        ShutdownMode::from_policy(&Shutdown::Timeout(delay)),
        ShutdownMode::Linked { timeout: Some(delay) }
    );
    assert_eq!(
        ShutdownMode::from_policy(&Shutdown::Infinity),
        ShutdownMode::Linked { timeout: None }
    );
    let asked = shutdown_signal(ActorId::new(6, 0));
    assert!(asked.linked);
    assert_eq!(asked.reason, ExitReason::Shutdown);
    assert_eq!(Shutdown::default(), Shutdown::Timeout(Duration::from_secs(5)));
}

#[test]
fn configurations_are_brought_into_range() {
    let broken = SchedulerConfig {
        scheduler_count: 0,
        max_actors: 0,
        default_mailbox_capacity: 0,
        mailbox_runtime_reserve: 9,
        actor_turn_budget: 0,
        blocking_io_threads: 0,
        blocking_cpu_threads: 0,
        ..SchedulerConfig::for_parallelism(2)
    };
    let mended = normalize_scheduler_config(broken.clone());
    assert_eq!(mended.scheduler_count, 1);
    assert_eq!(mended.max_actors, 1);
    assert_eq!(mended.default_mailbox_capacity, 1);
    assert_eq!(mended.mailbox_runtime_reserve, 0);
    assert_eq!(mended.actor_turn_budget, 1);
    assert_eq!(mended.blocking_io_threads, 1);
    assert_eq!(mended.blocking_cpu_threads, 1);
    assert_eq!(normalize_scheduler_config(mended.clone()), mended);
    assert_eq!(normalize_config(SchedulerConfig::for_parallelism(8)).scheduler_count, 1);

    let default = SchedulerConfig::for_parallelism(8);
    assert_eq!(default.max_actors, 65_536);
    assert_eq!(default.default_mailbox_capacity, 1_024);
    assert_eq!(default.mailbox_runtime_reserve, 32);
    assert_eq!(default.actor_turn_budget, 64);
    assert_eq!(default.blocking_io_threads, 8);
    assert_eq!(SchedulerConfig::for_parallelism(1).blocking_io_threads, 4);
    assert_eq!(SchedulerConfig::for_parallelism(1).blocking_cpu_threads, 2);
}

#[test]
fn handles_keep_what_they_were_made_of() {
    let token = TimerToken::from_ref(Ref::new(3));
    let timeout = ReceiveTimeout::new(token);
    assert_eq!(timeout.token(), token);
    assert!(timeout.matches(&Envelope::Timer(TimerFired { token })));
    assert!(!timeout.matches(&Envelope::user((), "()")));
    let other = TimerToken::from_ref(Ref::new(4));
    assert!(!timeout.matches(&Envelope::Timer(TimerFired { token: other })));

    let handle: TaskHandle<u8> = TaskHandle::new(Ref::new(5), PoolKind::BlockingIo);
    assert_eq!(handle.id(), Ref::new(5));
    assert_eq!(handle.pool(), PoolKind::BlockingIo);

    let received = ReceivedEnvelope::new(Envelope::user(1_u8, "u8"));
    assert_eq!(received.as_envelope().kind(), EnvelopeKind::User);
    assert_eq!(received.into_envelope().kind(), EnvelopeKind::User);
}
