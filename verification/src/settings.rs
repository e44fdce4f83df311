//! Desktop settings that are plain values: the right sidebar's tab and the
//! optional MCP server over HTTP.

use vstd::prelude::*;

verus! {

/// The tab selected in the right sidebar.
#[derive(Clone, Copy, Debug, PartialEq, Eq, Structural)]
pub enum RightTab {
    Metadata,
}

impl Default for RightTab {
    fn default() -> (res: RightTab)
        ensures
            res == RightTab::Metadata,
    {
        RightTab::Metadata
    }
}

/// The port the MCP server listens on by default.
pub const DEFAULT_MCP_HTTP_PORT: u16 = 3737;

/// The port the MCP server gets when none is configured.
pub fn default_mcp_http_port() -> (res: u16)
    ensures
        res == 3737,
{
    DEFAULT_MCP_HTTP_PORT
}

/// The in-process MCP server exposed over HTTP, on the loopback interface
/// only.
#[derive(Clone, Copy, Debug, PartialEq, Eq, Structural)]
pub struct McpHttpSettings {
    /// Run the server whenever a journal is open.
    pub enabled: bool,
    /// TCP port on the loopback interface.
    pub port: u16,
}

impl McpHttpSettings {
    /// The address the server binds to.
    pub const BIND: &'static str = "127.0.0.1";
}

impl Default for McpHttpSettings {
    fn default() -> (res: McpHttpSettings)
        ensures
            !res.enabled,
            res.port == 3737,
    {
        McpHttpSettings { enabled: false, port: default_mcp_http_port() }
    }
}

} // verus!
