//! Game process launch and native library preparation engine.
//!
//! The library prepares the flat directory of platform-specific shared
//! libraries a game client needs, builds the interpreter command line for a
//! launch request, and keeps a registry of spawned processes that answers
//! non-blocking status and kill queries.

pub mod archive;
pub mod command;
pub mod java;
pub mod logger;
pub mod natives;
pub mod platform;
pub mod prepare;
pub mod registry;
pub mod text;
