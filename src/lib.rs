//! Core of a live viewer for a running processing pipeline: the textual graph
//! description annotated with port counters, the single-slot handoff between the
//! poller and the display, the poll loop's decisions, and the interpretation of
//! the layout engine's outcome.

pub mod dot;
pub mod mailbox;
pub mod poll;
pub mod layout;
pub mod viewer;
