//! The outcomes of the HTTP client: what a finished, failed or mocked
//! exchange reports.
use vstd::prelude::*;
use vstd::string::*;
use crate::http::request::{ApiResp, BodyResp};

verus! {

/// The HTTP client of the service.
#[derive(Clone)]
pub struct RequestCurl;

/// An HTTP client that answers without any network.
#[derive(Clone)]
pub struct RequestMock;

/// The response head that the mock client reports.
pub open spec fn mock_head() -> Seq<char> {
    "HTTP/1.1 200 OK\r\nContent-Length: 1088\r\nContent-Type: application/json; charset=utf-8\r\nDate: Wed, 09 Dec 2020 07:40:22 GMT\r\nServer: Caddy\r\n"@
}

impl RequestCurl {
    /// A failed exchange: code -1, the error's text, no headers.
    pub fn failed(message: String) -> (r: (BodyResp, bool))
        ensures
            r.0.code == -1,
            r.0.mssage@ == message@,
            r.0.data is None,
            !r.1,
    {
        (BodyResp { code: -1, mssage: message, data: None }, false)
    }

    /// A finished GET: when the body was an api answer, its code and
    /// message; otherwise code -1 and no message, as a failure.
    pub fn get_outcome(api: Option<ApiResp>) -> (r: (BodyResp, bool))
        ensures
            match api {
                Some(a) => r.0.code == a.code && r.0.mssage@ == a.message@ && r.0.data is None && r.1,
                None => r.0.code == -1 && r.0.mssage@ == Seq::<char>::empty() && r.0.data is None && !r.1,
            },
    {
        match api {
            Some(a) => (BodyResp { code: a.code, mssage: a.message, data: None }, true),
            None => (BodyResp { code: -1, mssage: String::new(), data: None }, false),
        }
    }

    /// A finished RPC post: code 0, the body, and the response head.
    pub fn rpc_outcome(body: String, head: String) -> (r: (BodyResp, bool))
        ensures
            r.0.code == 0,
            r.0.mssage@ == body@,
            r.0.data matches Some(h) && h@ == head@,
            r.1,
    {
        (BodyResp { code: 0, mssage: body, data: Some(head) }, true)
    }
}

impl RequestMock {
    /// Every GET succeeds with code 0 and an empty body.
    #[allow(non_snake_case)]
    pub fn Get(&self, url: &str) -> (r: (BodyResp, bool))
        ensures
            r.0.code == 0,
            r.0.mssage@ == Seq::<char>::empty(),
            r.0.data is None,
            r.1,
    {
        (BodyResp { code: 0, mssage: String::new(), data: None }, true)
    }

    /// Every RPC post succeeds with code 0, the body `mock`, and a fixed
    /// response head.
    #[allow(non_snake_case)]
    pub fn Rpc(&self, url: &str, params: String) -> (r: (BodyResp, bool))
        ensures
            r.0.code == 0,
            r.0.mssage@ == "mock"@,
            r.0.data matches Some(h) && h@ == mock_head(),
            r.1,
    {
        let head = "HTTP/1.1 200 OK\r\nContent-Length: 1088\r\nContent-Type: application/json; charset=utf-8\r\nDate: Wed, 09 Dec 2020 07:40:22 GMT\r\nServer: Caddy\r\n";
        (BodyResp { code: 0, mssage: String::from_str("mock"), data: Some(String::from_str(head)) }, true)
    }
}

} // verus!
