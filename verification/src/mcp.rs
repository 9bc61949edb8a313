//! The factory for tool-server connections: it holds the configuration;
//! the connections themselves are opened by the runtime around the
//! library, on demand.

use vstd::prelude::*;

use crate::mcp_config::McpConfig;

verus! {

/// Holds the tool-server configuration; no connection is kept open.
#[derive(Debug)]
pub struct McpManager {
    pub config: McpConfig,
}

impl McpManager {
    /// Stores the configuration for later connections.
    pub fn new(config: McpConfig) -> (r: McpManager)
        ensures
            r.config == config,
    {
        McpManager { config }
    }
}

} // verus!
