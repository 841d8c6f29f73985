//! Request/response envelope types, the upstream configuration record, and
//! the error taxonomy of the gateway core. JSON payloads are carried as
//! opaque `serde_json::Value`s: the core never looks inside one.

use vstd::prelude::*;

verus! {

/// `serde_json::Value` carried through the core as an opaque payload.
#[verifier::external_type_specification]
#[verifier::external_body]
pub struct ExValue(serde_json::Value);

/// Relies on `serde_json::Value`'s derived `Clone`: an exact structural copy.
#[verifier::external_body]
pub fn clone_json(v: &serde_json::Value) -> (r: serde_json::Value)
    ensures
        r == *v,
{
    v.clone()
}

/// Relies on `str`'s `PartialEq`: equal exactly when the character sequences
/// are equal.
#[verifier::external_body]
pub fn str_eq(a: &str, b: &str) -> (r: bool)
    ensures
        r == (a@ == b@),
{
    a == b
}

/// A JSON-RPC request envelope.
#[derive(Debug)]
pub struct RpcRequest {
    pub jsonrpc: String,
    /// Name of the RPC method to call (e.g., "eth_blockNumber").
    pub method: String,
    pub params: serde_json::Value,
    pub id: serde_json::Value,
}

/// A JSON-RPC response envelope: either a result or an error, never both.
#[derive(Debug)]
pub struct RpcResponse {
    pub jsonrpc: String,
    pub result: Option<serde_json::Value>,
    pub error: Option<RpcError>,
    pub id: serde_json::Value,
}

/// The RPC-level error object of a response envelope.
#[derive(Debug)]
pub struct RpcError {
    pub code: i32,
    pub message: String,
    pub data: Option<serde_json::Value>,
}

/// One upstream endpoint's static configuration.
#[derive(Debug)]
pub struct UpstreamConfig {
    pub name: String,
    pub url: String,
}

/// Why a forwarded request failed.
#[derive(Debug)]
pub enum GatewayError {
    /// Connection/send/receive failure at the transport layer.
    TransportFailure(String),
    /// The fixed per-call deadline elapsed.
    TimeoutFailure(String),
    /// Transport succeeded but returned a non-success status.
    UpstreamStatusFailure(u16),
    /// Transport and status succeeded but the decoded response carries an
    /// RPC-level error.
    RpcProtocolFailure(RpcError),
    /// Routing exhausted: no node passed the health test, or the set is empty.
    NoHealthyNode,
}

/// What the transport observed for one outbound call. The transport itself
/// lives outside the core; it reports its outcome as one of these plain
/// values, and the core decides what the outcome means.
#[derive(Debug)]
pub enum CallOutcome {
    /// Sending or receiving failed at the transport layer.
    TransportError(String),
    /// The per-call deadline elapsed.
    Timeout(String),
    /// The upstream answered with a non-success status code.
    HttpStatus(u16),
    /// The body could not be decoded as a response envelope.
    ParseError(String),
    /// A decoded response envelope (it may still carry an RPC-level error).
    Response(RpcResponse),
}

/// A call outcome counts as a success exactly when a response envelope came
/// back and it carries no RPC-level error.
pub open spec fn spec_outcome_success(o: CallOutcome) -> bool {
    match o {
        CallOutcome::Response(r) => r.error is None,
        _ => false,
    }
}

/// What a call outcome surfaces to the caller: the clean response, or the
/// error that describes the failure.
pub open spec fn spec_call_result(o: CallOutcome) -> Result<RpcResponse, GatewayError> {
    match o {
        CallOutcome::TransportError(m) => Err(GatewayError::TransportFailure(m)),
        CallOutcome::Timeout(m) => Err(GatewayError::TimeoutFailure(m)),
        CallOutcome::HttpStatus(c) => Err(GatewayError::UpstreamStatusFailure(c)),
        CallOutcome::ParseError(m) => Err(GatewayError::TransportFailure(m)),
        CallOutcome::Response(r) => {
            match r.error {
                Some(e) => Err(GatewayError::RpcProtocolFailure(e)),
                None => Ok(r),
            }
        },
    }
}

impl RpcResponse {
    /// Builds a success envelope around a result value.
    pub fn success(id: serde_json::Value, result: serde_json::Value) -> (r: RpcResponse)
        ensures
            r.jsonrpc@ == "2.0"@,
            r.result == Some(result),
            r.error is None,
            r.id == id,
    {
        RpcResponse {
            jsonrpc: String::from_str("2.0"),
            result: Some(result),
            error: None,
            id,
        }
    }

    /// Builds an error envelope around a code and a message.
    pub fn error(id: serde_json::Value, code: i32, message: String) -> (r: RpcResponse)
        ensures
            r.jsonrpc@ == "2.0"@,
            r.result is None,
            r.error matches Some(e) && e.code == code && e.message == message && e.data is None,
            r.id == id,
    {
        RpcResponse {
            jsonrpc: String::from_str("2.0"),
            result: None,
            error: Some(RpcError { code, message, data: None }),
            id,
        }
    }
}

} // verus!
