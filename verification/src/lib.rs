//! Verified core of a desktop companion for an AI coding assistant's
//! command-line tool:
//! the event parser for the CLI's stream-json output, the permission
//! policy, session-history reconstruction, the IDE context server's
//! request handling, and the settings-file edits the app performs.

pub mod json;
pub mod text;
pub mod events;
pub mod workspace;
pub mod history;
pub mod cli;
pub mod permission;
pub mod ide;
pub mod settings;
pub mod order;
pub mod setup;
pub mod image;
