//! The multicore runtime: what its workers do under the runtime's lock.

pub mod delivery;
pub mod exit_laws;
pub mod exits;
pub mod inspect;
pub mod laws;
pub mod soundness;
pub mod spec;
pub mod state;
pub mod ties;
pub mod turn_laws;
pub mod turns;
pub mod worker;

pub use state::ConcurrentRuntime;
pub use turns::{gives_way, NextStep, TurnStart};
pub use worker::{HookEnd, Worker, WorkerAction};
