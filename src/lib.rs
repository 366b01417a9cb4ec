//! Render-pass recording and validation: attachment keys, the object cache,
//! the bind-group binder, draw readiness, the command interpreter and the
//! resource-tracker merge at the end of a pass.

pub mod attachment;
pub mod backend;
pub mod binder;
pub mod cache;
pub mod command;
pub mod laws;
pub mod pass;
pub mod resource;
pub mod state;
pub mod track;
pub mod types;
