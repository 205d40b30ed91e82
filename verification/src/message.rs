//! The messages exchanged with websocket clients: requests naming a
//! chain and carrying a JSON-RPC call, responses, error replies and
//! subscription pushes.
use vstd::prelude::*;
use vstd::std_specs::convert::FromSpecImpl;
use crate::rpc::{JsonValue, Version};
use crate::rpc_api::SubscribedResult;

verus! {

/// A request from a client: its id, the chain it addresses, and the
/// JSON-RPC request as text.
#[derive(Debug, Clone)]
pub struct RequestMessage {
    pub id: String,
    pub chain: String,
    /// A jsonrpc string about request
    pub request: String,
}

/// The answer to a request: the client's id and chain, and the JSON-RPC
/// response as text.
#[derive(Debug, Clone, PartialEq, Eq)]
pub struct ResponseMessage {
    pub id: String,
    pub chain: String,
    /// A jsonrpc string about result
    pub result: String,
}

/// When request is illegal, the message will be returned.
#[derive(Debug, Clone)]
pub struct ResponseErrorMessage {
    pub error: String,
}

impl ResponseErrorMessage {
    /// The reply to a request that failed: the error's text.
    pub fn from(err: crate::rpc::ServiceError) -> (r: ResponseErrorMessage)
        ensures
            err matches crate::rpc::ServiceError::JsonrpcError(e) ==> r.error@
                == crate::rpc::code_description(e.code) + ": "@ + e.message@,
    {
        ResponseErrorMessage { error: err.to_text() }
    }
}

/// A subscription push for a client: its id and chain, and the
/// notification as text.
#[derive(Debug, Clone)]
pub struct SubscribedMessage {
    pub id: String,
    pub chain: String,
    /// A jsonrpc string about subscription
    pub data: String,
}

/// A JSON-RPC notification for a subscription.
#[derive(Debug)]
pub struct SubscribedData {
    pub jsonrpc: Option<Version>,
    pub method: String,
    pub params: SubscribedParams,
}

/// The parameters of a subscription notification: which subscription,
/// and what it delivers.
#[derive(Debug)]
pub struct SubscribedParams {
    pub subscription: SubscriptionId,
    pub result: SubscribedResult,
}

/// Unique subscription id.
///
/// NOTE Assigning same id to different requests will cause the previous request to be unsubscribed.
#[derive(Debug, Clone)]
pub enum SubscriptionId {
    /// A numerical ID, represented by a `u64`.
    Number(u64),
    /// A non-numerical ID, for example a hash.
    String(String),
}

/// A subscription id taken as a value.
pub enum SubscriptionIdView {
    Number(u64),
    String(Seq<char>),
}

impl View for SubscriptionId {
    type V = SubscriptionIdView;

    open spec fn view(&self) -> SubscriptionIdView {
        match self {
            SubscriptionId::Number(n) => SubscriptionIdView::Number(*n),
            SubscriptionId::String(s) => SubscriptionIdView::String(s@),
        }
    }
}

impl SubscriptionId {
    /// Parses a JSON value into a subscription id: a string becomes a
    /// string id, a number that is a 64-bit unsigned integer a numeric id,
    /// and anything else no id.
    pub fn parse_value(val: &JsonValue) -> (r: Option<SubscriptionId>)
        ensures
            match val {
                JsonValue::String(s) => r matches Some(SubscriptionId::String(t)) && t@ == s@,
                JsonValue::Number(Some(n)) => r matches Some(SubscriptionId::Number(m)) && m == n,
                _ => r is None,
            },
    {
        match val {
            JsonValue::String(s) => Some(SubscriptionId::String(s.clone())),
            JsonValue::Number(n) => match n {
                Some(v) => Some(SubscriptionId::Number(*v)),
                None => None,
            },
            _ => None,
        }
    }
}

impl From<String> for SubscriptionId {
    fn from(other: String) -> Self {
        SubscriptionId::String(other)
    }
}

impl FromSpecImpl<String> for SubscriptionId {
    open spec fn obeys_from_spec() -> bool {
        true
    }

    open spec fn from_spec(other: String) -> Self {
        SubscriptionId::String(other)
    }
}

impl From<u8> for SubscriptionId {
    fn from(other: u8) -> Self {
        SubscriptionId::Number(other as u64)
    }
}

impl FromSpecImpl<u8> for SubscriptionId {
    open spec fn obeys_from_spec() -> bool {
        true
    }

    open spec fn from_spec(other: u8) -> Self {
        SubscriptionId::Number(other as u64)
    }
}

impl From<u16> for SubscriptionId {
    fn from(other: u16) -> Self {
        SubscriptionId::Number(other as u64)
    }
}

impl FromSpecImpl<u16> for SubscriptionId {
    open spec fn obeys_from_spec() -> bool {
        true
    }

    open spec fn from_spec(other: u16) -> Self {
        SubscriptionId::Number(other as u64)
    }
}

impl From<u32> for SubscriptionId {
    fn from(other: u32) -> Self {
        SubscriptionId::Number(other as u64)
    }
}

impl FromSpecImpl<u32> for SubscriptionId {
    open spec fn obeys_from_spec() -> bool {
        true
    }

    open spec fn from_spec(other: u32) -> Self {
        SubscriptionId::Number(other as u64)
    }
}

impl From<u64> for SubscriptionId {
    fn from(other: u64) -> Self {
        SubscriptionId::Number(other)
    }
}

impl FromSpecImpl<u64> for SubscriptionId {
    open spec fn obeys_from_spec() -> bool {
        true
    }

    open spec fn from_spec(other: u64) -> Self {
        SubscriptionId::Number(other)
    }
}

impl From<SubscriptionId> for JsonValue {
    fn from(sub: SubscriptionId) -> Self {
        match sub {
            SubscriptionId::Number(val) => JsonValue::Number(Some(val)),
            SubscriptionId::String(val) => JsonValue::String(val),
        }
    }
}

impl FromSpecImpl<SubscriptionId> for JsonValue {
    open spec fn obeys_from_spec() -> bool {
        true
    }

    open spec fn from_spec(sub: SubscriptionId) -> Self {
        match sub {
            SubscriptionId::Number(val) => JsonValue::Number(Some(val)),
            SubscriptionId::String(val) => JsonValue::String(val),
        }
    }
}

} // verus!
