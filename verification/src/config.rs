//! Settings of the agent scoring sidecar.

use vstd::prelude::*;

verus! {

/// Command-line and environment settings of the sidecar.
pub struct SidecarConfig {
    /// Port the sidecar HTTP server listens on.
    pub port: u16,
    /// Base URL of the upstream Kleos server.
    pub kleos_url: String,
    /// Agent identifier used when tagging stored memories.
    pub agent: String,
    /// Optional operating mode passed to scoring logic.
    pub mode: Option<String>,
}

} // verus!
