//! A debug session.
pub mod breakpoints;
pub mod conduct;
pub mod dispatch;
pub mod effects;
pub mod execution;
pub mod inspection;
pub mod invariants;
pub mod laws;
pub mod machine;
pub mod model;
pub mod placing;
pub mod protocol;
pub mod session;
pub mod state;
pub mod tracing;
pub mod variables;
