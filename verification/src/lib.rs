//! Subscription bookkeeping and request handling for a blockchain
//! key-value websocket gateway, with the HTTP/websocket proxy helpers
//! of the elara api service.
use vstd::prelude::*;

pub mod assoc;
pub mod text;
pub mod rpc;
pub mod rpc_api;
pub mod message;
pub mod session;
pub mod session_table;
pub mod util;
pub mod route;
pub mod http;
pub mod relay;
pub mod config;
pub mod kafka_api;
pub mod mq;
pub mod websocket;

verus! {

} // verus!
