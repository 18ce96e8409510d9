//! Compiles a declarative list of hotkey actions into bindings, and decides
//! the startup order and the handling of each triggered remote call.
pub mod config;
pub mod dispatch;
pub mod startup;
