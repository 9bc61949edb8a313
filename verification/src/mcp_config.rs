//! Declarative configuration of tool-server connections: each named server
//! is reached over HTTP, over server-sent events, or through a child
//! process's standard streams.

use vstd::prelude::*;

verus! {

/// The configured servers, by name, in declaration order.
#[derive(Debug)]
pub struct McpConfig {
    pub servers: Vec<(String, McpServerConfig)>,
}

/// How one server is reached.
#[derive(Debug)]
pub enum McpServerConfig {
    /// Plain HTTP transport.
    Http { url: String, headers: Vec<(String, String)> },
    /// Server-sent events transport.
    Sse { url: String, headers: Vec<(String, String)> },
    /// A child process spoken to over its standard streams.
    Stdio { command: String, args: Option<Vec<String>>, env: Vec<(String, String)> },
}

impl McpServerConfig {
    /// The URL a network-based server is reached at; a standard-stream
    /// server has none.
    pub open spec fn spec_url(self) -> Option<Seq<char>> {
        match self {
            McpServerConfig::Http { url, .. } => Some(url@),
            McpServerConfig::Sse { url, .. } => Some(url@),
            McpServerConfig::Stdio { .. } => None,
        }
    }

    /// The URL to connect to, when the server is network-based.
    pub fn get_connection_url(&self) -> (r: Option<&str>)
        ensures
            r is Some <==> self.spec_url() is Some,
            r is Some ==> r.unwrap()@ == self.spec_url().unwrap(),
    {
        match self {
            McpServerConfig::Http { url, .. } => Some(url.as_str()),
            McpServerConfig::Sse { url, .. } => Some(url.as_str()),
            McpServerConfig::Stdio { .. } => None,
        }
    }

    /// Whether the server is reached over the network rather than through
    /// a child process.
    pub fn is_http_based(&self) -> (r: bool)
        ensures
            r == (self.spec_url() is Some),
    {
        match self {
            McpServerConfig::Http { .. } => true,
            McpServerConfig::Sse { .. } => true,
            McpServerConfig::Stdio { .. } => false,
        }
    }
}

} // verus!
