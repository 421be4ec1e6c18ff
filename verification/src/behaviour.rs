//! Typed behaviours layered on top of actors.

pub mod adapter;
pub mod gen_server;
pub mod gen_statem;
pub mod info;

pub use gen_server::{CallOutcome, GenServerActor, ServerOutcome};
pub use gen_statem::{GenStatemActor, StatemCallOutcome, StatemOutcome};
pub use info::{CastMessage, InfoMessage, RuntimeInfo};
