//! A quota engine for admission control: a cell-rate admission primitive
//! with burst tolerance, a table of templated quota routes, and a
//! coordinator that evaluates every matched route against a cursor store
//! and commits all advanced cursors atomically, or none.

pub mod context;
pub mod context_extraction;
pub mod gcra;
pub mod mcp;
pub mod mcp_config;
pub mod rate_limit_config;
pub mod store;
pub mod template;
