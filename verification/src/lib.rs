//! Verified core of a moderation-report workflow for a community chat
//! platform.
//!
//! Members flag another member, optionally citing a specific message; the
//! flag is persisted with deduplication and precondition checks, and two
//! synchronized views of it (one for the reporter, one for moderators)
//! track a status state machine.  Platform I/O (identity lookup, message
//! delivery and editing) stays outside this crate: the library computes
//! every decision, every persisted change and the exact content of every
//! notice and rendered view, and hands the caller a plan of the messages
//! to send or edit.

pub mod database;
pub mod models;
pub mod services;
pub mod text;
pub mod view;
