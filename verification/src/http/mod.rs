//! The HTTP side of the api service: request and response records, the
//! reports sent to Kafka, the project validator, the RPC client's
//! outcomes and the decisions of the proxy handler.
pub mod request;
pub mod server;
pub mod validator;
pub mod curl;

pub mod actix_server;
