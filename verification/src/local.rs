//! The single-threaded runtime, as a machine that its driver steps.
//!
//! The driver runs the hooks of actors and hands their outcomes back. While a hook runs, its
//! actor stands on top of the stack; exits that the hook brings about are put above it and
//! settled before the hook goes on.

pub mod current;
pub mod events;
pub mod exit_laws;
pub mod exits;
pub mod frame;
pub mod inspect;
pub mod laws;
pub mod machine;
pub mod services;
pub mod spec;
pub mod step_laws;
pub mod turn_laws;
pub mod turns;

pub use frame::{Frame, Leaving, Stage};
pub use exits::{ShutdownTicket, Step};
pub use machine::LocalRuntime;
pub use turns::Job;
