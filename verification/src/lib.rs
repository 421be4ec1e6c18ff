//! `lamport` is an OTP-inspired actor runtime.
//!
//! The crate models the operational pieces that make Erlang/OTP useful for
//! services, and states what each of them does:
//!
//! - isolated actors with explicit ids and mailboxes
//! - async message delivery plus selective receive
//! - links, monitors, exit propagation, and trap-exit semantics
//! - supervisor flags, child specs, and restart-intensity windows
//! - one-message turns with a run queue on one thread, or a task per actor
//!
//! The runtimes here are state machines: they decide, and the code around them
//! calls the hooks of the actors, sleeps, and runs blocking jobs. Actors stay
//! synchronous and turn-based; async work is modeled as messages, timers,
//! request/reply, or completions of blocking jobs.
//!
//! Mailboxes are bounded by envelope count, not by byte size. Large immutable
//! payloads should be wrapped in shared buffers once they routinely exceed
//! [`RECOMMENDED_INLINE_MESSAGE_LIMIT_BYTES`].

pub mod actor;
pub mod application;
pub mod behaviour;
pub mod collections;
pub mod concurrent;
pub mod context;
pub mod control;
pub mod envelope;
pub mod internal;
pub mod lifecycle;
pub mod local;
pub mod mailbox;
pub mod observability;
pub mod registry;
pub mod runtime;
pub mod scheduler;
pub mod snapshot;
pub mod supervisor;
pub mod text;
pub mod time;
pub mod types;

pub use actor::ActorTurn;
pub use application::ApplicationHandle;
pub use behaviour::{
    CallOutcome, CastMessage, GenServerActor, GenStatemActor, InfoMessage, RuntimeInfo,
    ServerOutcome, StatemCallOutcome, StatemOutcome,
};
pub use concurrent::ConcurrentRuntime;
pub use context::{
    LinkError, MonitorError, PendingCall, SendError, SpawnError, SpawnOptions, TaskHandle,
    TimerError,
};
pub use envelope::{
    CallTimedOut, DownMessage, Envelope, EnvelopeKind, ExitSignal, Message, Payload, ReplyToken,
    SystemMessage, TaskCompleted, TimerFired, RECOMMENDED_INLINE_MESSAGE_LIMIT_BYTES,
};
pub use lifecycle::{CrashReport, LifecycleEvent, ShutdownPhase};
pub use local::LocalRuntime;
pub use mailbox::{Mailbox, MailboxWatermark};
pub use observability::{
    ActorTree, ActorTreeNode, EventCursor, RuntimeEvent, RuntimeEventKind, RuntimeIntrospection,
    RuntimeMetricsSnapshot,
};
pub use registry::{Registry, RegistryError};
pub use scheduler::{PoolKind, RunQueueSnapshot, ScheduleError, SchedulerConfig, SchedulerMetrics};
pub use snapshot::{ActorSnapshot, SupervisorChildSnapshot, SupervisorSnapshot};
pub use supervisor::{
    restart_scope, RestartIntensity, StartChildError, SupervisorActor, SupervisorDirective,
};
pub use types::{
    ActorId, ActorIdentity, ActorMetrics, ActorStatus, ChildSpec, ExitReason, Ref, Restart,
    Shutdown, Strategy, SupervisorFlags, TimerToken,
};
