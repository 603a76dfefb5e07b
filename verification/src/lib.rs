//! Verified core of the Kleos agent-memory services: session-log scanning for
//! the sidecar watcher, the memory gate, Broca action narration and queries,
//! the Axon event stream cursor, the MCP tool registry, SSH signing for the
//! Phylax vault and at-rest key selection.

pub mod axon_stream;
pub mod broca;
pub mod config;
pub mod encryption;
pub mod gate;
pub mod json;
pub mod judge;
pub mod mcp_tools;
pub mod ssh_sign;
pub mod text;
pub mod watcher;
