//! A multiplexer that lets several editor workspaces share one language server.

use vstd::prelude::*;

pub mod client_handler;
pub mod codec;
pub mod connection;
pub mod json;
pub mod laws;
pub mod line_routing;
pub mod lsp;
pub mod multiplexer;
pub mod options;
pub mod protocol;
pub mod request_map;
pub mod routing;
pub mod rpc;
pub mod server_handler;
pub mod text;
pub mod workspace_manager;

pub use multiplexer::{Client, WorkspaceManager};
pub use rpc::Message;

verus! {

/// Identifies a client for as long as the daemon runs.
pub type ClientId = u64;

/// The id that a client gave one of its requests.
pub type RequestId = rpc::Id;

/// The id under which the server knows a request.
pub type ServerRequestId = i64;

} // verus!
