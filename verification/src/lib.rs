//! Balances Solana JSON-RPC requests over several endpoints, each with its own rate limits.

pub mod client;
pub mod endpoint;
pub mod limits;
pub mod methods;
pub mod rpc;

pub use client::SolanaClientInner;
pub use endpoint::{send_and_confirm_endpoints, RpcEndpoint};
pub use limits::SolanaClientRateLimit;
pub use rpc::SolanaClientRpc;
