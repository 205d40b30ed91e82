//! The JSON bodies of the HTTP side.
use vstd::prelude::*;

verus! {

/// A JSON-RPC request body.
#[derive(Debug)]
pub struct RpcReq {
    id: i32,
    jsonrpc: String,
    method: String,
    params: Vec<String>,
}

/// The outcome of an HTTP exchange: a code, the body (or an error text),
/// and the response headers when there are any.
#[derive(Debug)]
pub struct BodyResp {
    pub code: i32,
    pub mssage: String,
    pub data: Option<String>,
}

/// The body of an answer of the api service.
#[derive(Debug)]
pub struct ApiResp {
    pub code: i32,
    pub message: String,
    pub data: Option<String>,
}

} // verus!
