//! A context-activation engine.
//!
//! A context watches evidence sources (triggers), combines their signals
//! under an AND/OR policy and moves its actions between an entered and a
//! left state.  This crate holds the decisions of that engine: the
//! activation state machine, the edge detection of the polling trigger, the
//! bookkeeping of the command action and the reading of their
//! configuration.  Timers, processes and the event loop belong to the
//! program built around it.

pub mod actions;
pub mod context;
pub mod driver;
pub mod error;
pub mod merge;
pub mod multi;
pub mod registry;
pub mod text;
pub mod triggers;
pub mod yaml;
