//! JSON-RPC 2.0 values as the library sees them: request ids, errors,
//! method calls and result values, and the calls into `jsonrpc_core` and
//! `serde_json` that read requests and write responses.
use vstd::prelude::*;
use vstd::string::*;
use jsonrpc_core::{ErrorCode, Id, Output, Params, Value};

verus! {

#[verifier::external_type_specification]
#[verifier::external_body]
pub struct ExJsonError(serde_json::Error);

#[verifier::external_type_specification]
#[verifier::external_body]
pub struct ExKafkaError(rdkafka::error::KafkaError);

/// The protocol version of a JSON-RPC message.
#[derive(Debug, Clone, Copy, PartialEq, Eq, Structural)]
pub enum Version {
    V2,
}

/// A request id: absent, numeric, or a string.
#[derive(Debug, Clone)]
pub enum RpcId {
    Null,
    Num(u64),
    Str(String),
}

/// A request id taken as a value.
pub enum RpcIdView {
    Null,
    Num(u64),
    Str(Seq<char>),
}

impl View for RpcId {
    type V = RpcIdView;

    open spec fn view(&self) -> RpcIdView {
        match self {
            RpcId::Null => RpcIdView::Null,
            RpcId::Num(n) => RpcIdView::Num(*n),
            RpcId::Str(s) => RpcIdView::Str(s@),
        }
    }
}

impl RpcId {
    /// A copy of the id.
    pub fn duplicate(&self) -> (r: RpcId)
        ensures
            r@ == self@,
    {
        match self {
            RpcId::Null => RpcId::Null,
            RpcId::Num(n) => RpcId::Num(*n),
            RpcId::Str(s) => RpcId::Str(s.clone()),
        }
    }
}

/// A JSON value as far as the library reads it: scalars with their
/// contents, and arrays and objects by their kind alone. A number carries
/// its value when it is a non-negative integer that fits in 64 bits.
#[derive(Debug, Clone)]
pub enum JsonValue {
    Null,
    Bool(bool),
    Number(Option<u64>),
    String(String),
    Array,
    Object,
}

/// A JSON value of a successful response, as the handlers produce it.
#[derive(Debug, Clone)]
pub enum ResultValue {
    Bool(bool),
    String(String),
}

/// A result value taken as a value.
pub enum ResultValueView {
    Bool(bool),
    String(Seq<char>),
}

impl View for ResultValue {
    type V = ResultValueView;

    open spec fn view(&self) -> ResultValueView {
        match self {
            ResultValue::Bool(b) => ResultValueView::Bool(*b),
            ResultValue::String(s) => ResultValueView::String(s@),
        }
    }
}

pub const PARSE_ERROR: i64 = -32700;
pub const INVALID_REQUEST: i64 = -32600;
pub const METHOD_NOT_FOUND: i64 = -32601;
pub const INVALID_PARAMS: i64 = -32602;
pub const INTERNAL_ERROR: i64 = -32603;

/// A JSON-RPC error object: its code and message.
#[derive(Debug, Clone)]
pub struct RpcError {
    pub code: i64,
    pub message: String,
}

/// An error object taken as a value.
pub struct RpcErrorView {
    pub code: i64,
    pub message: Seq<char>,
}

impl View for RpcError {
    type V = RpcErrorView;

    open spec fn view(&self) -> RpcErrorView {
        RpcErrorView { code: self.code, message: self.message@ }
    }
}

/// The human-readable description of an error code, as JSON-RPC names it.
pub open spec fn code_description(code: i64) -> Seq<char> {
    if code == PARSE_ERROR {
        "Parse error"@
    } else if code == INVALID_REQUEST {
        "Invalid request"@
    } else if code == METHOD_NOT_FOUND {
        "Method not found"@
    } else if code == INVALID_PARAMS {
        "Invalid params"@
    } else if code == INTERNAL_ERROR {
        "Internal error"@
    } else {
        "Server error"@
    }
}

/// The description of an error code.
pub fn describe_code(code: i64) -> (s: String)
    ensures
        s@ == code_description(code),
{
    if code == PARSE_ERROR {
        String::from_str("Parse error")
    } else if code == INVALID_REQUEST {
        String::from_str("Invalid request")
    } else if code == METHOD_NOT_FOUND {
        String::from_str("Method not found")
    } else if code == INVALID_PARAMS {
        String::from_str("Invalid params")
    } else if code == INTERNAL_ERROR {
        String::from_str("Internal error")
    } else {
        String::from_str("Server error")
    }
}

impl RpcError {
    /// The error whose message is the description of its code.
    pub fn new(code: i64) -> (e: RpcError)
        ensures
            e.code == code,
            e.message@ == code_description(code),
    {
        RpcError { code, message: describe_code(code) }
    }

    /// Invalid JSON was received.
    pub fn parse_error() -> (e: RpcError)
        ensures
            e.code == PARSE_ERROR,
            e.message@ == code_description(PARSE_ERROR),
    {
        RpcError::new(PARSE_ERROR)
    }

    /// The method does not exist.
    pub fn method_not_found() -> (e: RpcError)
        ensures
            e.code == METHOD_NOT_FOUND,
            e.message@ == code_description(METHOD_NOT_FOUND),
    {
        RpcError::new(METHOD_NOT_FOUND)
    }

    /// The parameters are invalid, for the given reason.
    pub fn invalid_params(message: &str) -> (e: RpcError)
        ensures
            e.code == INVALID_PARAMS,
            e.message@ == message@,
    {
        RpcError { code: INVALID_PARAMS, message: String::from_str(message) }
    }

    /// The error as JSON-RPC displays it: description, colon, message.
    pub fn to_text(&self) -> (s: String)
        ensures
            s@ == code_description(self.code) + ": "@ + self.message@,
    {
        describe_code(self.code).concat(": ").concat(self.message.as_str())
    }
}

/// A method call: the method's name, its parameters as JSON text (`null`
/// when the call has none), and the request id.
#[derive(Debug)]
pub struct RpcCall {
    pub method: String,
    pub params: String,
    pub id: RpcId,
}

/// What a JSON-RPC method call written as the given text says, as
/// `jsonrpc_core::MethodCall` reads it through `serde_json`: its method,
/// its id and its parameters written back as JSON text, or nothing when
/// the text is no method call.
pub uninterp spec fn method_call_of(text: Seq<char>) -> Option<(Seq<char>, RpcIdView, Seq<char>)>;

/// Reads a method call from JSON text. The outside functions are
/// `serde_json::from_str::<jsonrpc_core::MethodCall>`, and
/// `serde_json::to_string` for its parameters. The contract claims that the
/// outcome is a function of the text alone (named `method_call_of`), with
/// the method, id and parameter text carried over.
#[verifier::external_body]
fn parse_method_call(text: &str) -> (r: Result<RpcCall, serde_json::Error>)
    ensures
        r is Ok <==> method_call_of(text@) is Some,
        r matches Ok(c) ==> method_call_of(text@) == Some((c.method@, c.id@, c.params@)),
{
    let c = serde_json::from_str::<jsonrpc_core::MethodCall>(text)?;
    let params = serde_json::to_string(&c.params)?;
    let id = match c.id {
        Id::Null => RpcId::Null,
        Id::Num(n) => RpcId::Num(n),
        Id::Str(s) => RpcId::Str(s),
    };
    Ok(RpcCall { method: c.method, params, id })
}

/// The list of lists of strings that parameters written as the given JSON
/// text parse to, as `jsonrpc_core::Params::parse` reads them; nothing when
/// they do not parse.
pub uninterp spec fn params_key_lists(params: Seq<char>) -> Option<Seq<Seq<Seq<char>>>>;

/// The single string that parameters written as the given JSON text parse
/// to, as `jsonrpc_core::Params::parse` reads them; nothing when they do
/// not parse.
pub uninterp spec fn params_one_string(params: Seq<char>) -> Option<Seq<char>>;

/// Reads parameters, written as JSON text, as a list of lists of strings.
/// The outside functions are `serde_json::from_str::<jsonrpc_core::Params>`
/// and `jsonrpc_core::Params::parse::<Vec<Vec<String>>>`. The contract
/// claims that the outcome is a function of the text alone (named
/// `params_key_lists`), and what the source of `parse` shows of failures:
/// they are reported as invalid parameters. Text that is no parameters at all is
/// reported as invalid parameters through
/// `jsonrpc_core::Error::invalid_params`. The error's message is not
/// stated.
#[verifier::external_body]
fn params_as_key_lists(params: &str) -> (r: Result<Vec<Vec<String>>, RpcError>)
    ensures
        r is Ok <==> params_key_lists(params@) is Some,
        r matches Ok(v) ==> params_key_lists(params@) == Some(v.deep_view()),
        r matches Err(e) ==> e.code == INVALID_PARAMS,
{
    let read = match serde_json::from_str::<Params>(params) {
        Ok(p) => p.parse::<Vec<Vec<String>>>(),
        Err(e) => Err(jsonrpc_core::Error::invalid_params(e.to_string())),
    };
    match read {
        Ok(v) => Ok(v),
        Err(e) => Err(RpcError { code: e.code.code(), message: e.message }),
    }
}

/// Reads parameters, written as JSON text, as a single string. The outside
/// functions are `serde_json::from_str::<jsonrpc_core::Params>` and
/// `jsonrpc_core::Params::parse::<(String,)>`. The contract claims that
/// the outcome is a function of the text alone (named
/// `params_one_string`), and what the source of `parse` shows of failures:
/// they are reported as invalid parameters. Text that is no parameters at all is
/// reported as invalid parameters through
/// `jsonrpc_core::Error::invalid_params`. The error's message is not
/// stated.
#[verifier::external_body]
fn params_as_one_string(params: &str) -> (r: Result<String, RpcError>)
    ensures
        r is Ok <==> params_one_string(params@) is Some,
        r matches Ok(v) ==> params_one_string(params@) == Some(v@),
        r matches Err(e) ==> e.code == INVALID_PARAMS,
{
    let read = match serde_json::from_str::<Params>(params) {
        Ok(p) => p.parse::<(String,)>(),
        Err(e) => Err(jsonrpc_core::Error::invalid_params(e.to_string())),
    };
    match read {
        Ok(v) => Ok(v.0),
        Err(e) => Err(RpcError { code: e.code.code(), message: e.message }),
    }
}

/// A response result taken as a value.
pub open spec fn result_view(r: Result<ResultValue, RpcError>) -> Result<ResultValueView, RpcErrorView> {
    match r {
        Ok(v) => Ok(v@),
        Err(e) => Err(e@),
    }
}

/// The JSON text of a response object, as `serde_json` writes the
/// `jsonrpc_core::Output` built from a version flag, a result and an id.
pub uninterp spec fn output_text(
    v2: bool,
    result: Result<ResultValueView, RpcErrorView>,
    id: RpcIdView,
) -> Seq<char>;

/// Writes a response object as JSON text. The outside function is
/// `serde_json::to_string` applied to `jsonrpc_core::Output::from`. The
/// contract claims that writing succeeds, and that the text is a function
/// of the version flag, the result and the id alone (named
/// `output_text`). `serde_json` documents that writing fails only when a
/// `Serialize` impl fails or a map has keys that are not strings; the
/// `Output` built here holds a boolean or string result, an error of an
/// integer code and a string message, a string or integer id and the
/// version, whose impls never fail, and no map.
#[verifier::external_body]
fn write_output(v2: bool, result: Result<ResultValue, RpcError>, id: RpcId) -> (r: Result<String, serde_json::Error>)
    ensures
        r is Ok,
        r matches Ok(s) ==> s@ == output_text(v2, result_view(result), id@),
{
    let id = match id { RpcId::Null => Id::Null, RpcId::Num(n) => Id::Num(n), RpcId::Str(s) => Id::Str(s) };
    let result = match result {
        Ok(ResultValue::Bool(b)) => Ok(Value::Bool(b)),
        Ok(ResultValue::String(s)) => Ok(Value::String(s)),
        Err(e) => Err(jsonrpc_core::Error { code: ErrorCode::from(e.code), message: e.message, data: None }),
    };
    serde_json::to_string(&Output::from(result, id, v2.then_some(jsonrpc_core::Version::V2)))
}

/// The text of a `serde_json` error. The outside function is the
/// `Display` of `serde_json::Error`; nothing is stated of the text.
#[verifier::external_body]
fn json_error_text(e: &serde_json::Error) -> (s: String) {
    e.to_string()
}

/// The text of a Kafka error. The outside function is the `Display` of
/// `rdkafka::error::KafkaError`; nothing is stated of the text.
#[verifier::external_body]
fn kafka_error_text(e: &rdkafka::error::KafkaError) -> (s: String) {
    e.to_string()
}

/// The errors of the service: a failure of Kafka, a JSON-RPC error to
/// answer with, or a failure of reading or writing JSON.
#[derive(Debug)]
pub enum ServiceError {
    KafkaError(rdkafka::error::KafkaError),
    JsonrpcError(RpcError),
    JsonError(serde_json::Error),
}

impl RpcCall {
    /// Reads a method call from its JSON text.
    pub fn from_json(text: &str) -> (r: Result<RpcCall, ServiceError>)
        ensures
            r is Ok <==> method_call_of(text@) is Some,
            r matches Ok(c) ==> method_call_of(text@) == Some((c.method@, c.id@, c.params@)),
            r matches Err(e) ==> e is JsonError,
    {
        match parse_method_call(text) {
            Ok(c) => Ok(c),
            Err(e) => Err(ServiceError::JsonError(e)),
        }
    }

    /// The parameters read as a list of lists of strings.
    pub fn key_lists(self) -> (r: Result<Vec<Vec<String>>, RpcError>)
        ensures
            r is Ok <==> params_key_lists(self.params@) is Some,
            r matches Ok(v) ==> params_key_lists(self.params@) == Some(v.deep_view()),
            r matches Err(e) ==> e.code == INVALID_PARAMS,
    {
        params_as_key_lists(self.params.as_str())
    }

    /// The parameters read as a single string.
    pub fn one_string(self) -> (r: Result<String, RpcError>)
        ensures
            r is Ok <==> params_one_string(self.params@) is Some,
            r matches Ok(v) ==> params_one_string(self.params@) == Some(v@),
            r matches Err(e) ==> e.code == INVALID_PARAMS,
    {
        params_as_one_string(self.params.as_str())
    }
}

/// Writes a response object with the given version flag, result and id;
/// writing always succeeds.
pub fn response_json(v2: bool, result: Result<ResultValue, RpcError>, id: RpcId) -> (r: Result<String, ServiceError>)
    ensures
        r matches Ok(s) && s@ == output_text(v2, result_view(result), id@),
{
    match write_output(v2, result, id) {
        Ok(s) => Ok(s),
        Err(e) => Err(ServiceError::JsonError(e)),
    }
}

impl ServiceError {
    /// The text of the error, as its inner error displays it.
    pub fn to_text(&self) -> (s: String)
        ensures
            self matches ServiceError::JsonrpcError(e) ==> s@ == code_description(e.code) + ": "@ + e.message@,
    {
        match self {
            ServiceError::JsonrpcError(e) => e.to_text(),
            ServiceError::JsonError(e) => json_error_text(e),
            ServiceError::KafkaError(e) => kafka_error_text(e),
        }
    }
}

} // verus!
