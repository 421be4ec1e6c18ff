//! Supervision: restart scopes, restart windows and the supervisor state machine.

pub mod decision_laws;
pub mod intensity;
pub mod laws;
pub mod machine;
pub mod plan;
pub mod runs;
pub mod scope;
pub mod state;

pub use intensity::RestartIntensity;
pub use scope::restart_scope;
pub use machine::{
    StartChildError, SupervisorActor, SupervisorDirective, SupervisorNotice, SupervisorRequest,
    SupervisorStep, SupervisorWait,
};
