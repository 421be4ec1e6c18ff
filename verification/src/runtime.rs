//! The state of a runtime: its actors, their ties and what became of them.

pub mod actor_laws;
pub mod actor_state;
pub mod completed;
pub mod laws;
pub mod report;
pub mod state;
pub mod state_laws;
pub mod table;
pub mod timers;

pub use actor_state::ActorState;
pub use completed::CompletedActors;
pub use state::RuntimeState;
pub use table::ActorTable;
pub use timers::TimerSet;
