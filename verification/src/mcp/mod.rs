//! The MCP server's protocol vocabulary and its request-handling decisions.
pub mod protocol;
pub mod dispatch;
