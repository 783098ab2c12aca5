//! Verified control logic of a chat-room automation agent.
//!
//! The agent joins rooms on invitation, parses a small command grammar from
//! incoming text messages, and runs one privileged action: copying a
//! container image between two registries, reporting the outcome back into
//! the room. This crate holds the decision logic — the command grammar, the
//! message router, the import-action planner, and the invite-backoff state
//! machine — each with a proved contract. The chat transport and the
//! external copy process live outside and hand plain values in and out.

pub mod config;
pub mod grammar;
pub mod joiner;
pub mod registry_import;
pub mod router;
