//! The configuration of the key-value component, and (in `toml`) that of
//! the api service.
use vstd::prelude::*;
use std::collections::HashMap;

pub mod toml;

verus! {

/// The key-value component's configuration.
#[derive(Debug, Clone)]
pub struct Config {
    pub log: LogConfig,
    pub kafka: HashMap<String, String>,
    pub ws: WsConfig,
}

/// Where the websocket server listens.
#[derive(Debug, Clone)]
pub struct WsConfig {
    pub addr: String,
}

/// A chain and its node addresses.
#[derive(Debug, Clone)]
pub struct ChainConfig {
    pub name: String,
    pub rpc_url: String,
    pub ws_url: String,
}

/// The logging level.
#[derive(Debug, Clone)]
pub struct LogConfig {
    pub level: String,
}

} // verus!
