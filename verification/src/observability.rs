//! Observability: events, topology and metrics.

pub mod events;
pub mod laws;
pub mod prometheus;
pub mod topology;
pub mod tracing;
pub mod types;

pub use events::{events_since, EventCursor, EventLog, RuntimeEvent, RuntimeEventKind};
pub use topology::{build_actor_tree, build_metrics_snapshot, build_runtime_introspection};
pub use tracing::{trace_event, TraceLevel, TraceLine};
pub use types::{ActorTree, ActorTreeNode, RuntimeIntrospection, RuntimeMetricsSnapshot};
