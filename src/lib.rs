//! The core of a terminal task manager that mirrors a remote task list.
//!
//! `app` holds the task registry, the synchronizer's completions of remote
//! calls, and the interaction state machine; `commands` turns command-line
//! commands into remote calls; `store` decides the durable store's schema
//! steps; `text` holds the buffer edits and the blank-title test.
use vstd::prelude::*;

pub mod task;
pub mod text;
pub mod app;
pub mod commands;
pub mod store;

verus! {

} // verus!
