//! Plain value types shared by the whole runtime.

pub mod actor;
pub mod exit;
pub mod status;
pub mod supervision;

pub use actor::{ActorId, Ref, RefSource, TimerToken};
pub use exit::{ActorIdentity, ExitReason};
pub use status::{ActorMetrics, ActorStatus};
pub use supervision::{ChildSpec, Restart, Shutdown, Strategy, SupervisorFlags};
