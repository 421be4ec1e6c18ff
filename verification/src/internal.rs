//! Rules that both runtimes share.

pub mod config;
pub mod error;
pub mod exit_signal;
pub mod id;
pub mod shutdown;
pub mod supervisor_state;
pub mod turn;
