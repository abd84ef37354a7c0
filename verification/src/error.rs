//! Errors of the bridge and their JSON-RPC form.
use vstd::prelude::*;

use crate::json::{Json, JsonNumber, JsonView, ObjectBuilder};
use crate::jsonrpc_code::{
    BROKER_UNAVAILABLE, INTERNAL_ERROR, INVALID_PARAMS, PROTOCOL_ERROR, REQUEST_CANCELLED, TIMEOUT,
};
use crate::text::{join2, join3};

verus! {

/// What can go wrong between a client and the broker.
#[derive(Debug)]
pub enum BridgeError {
    BrokerUnavailable(String),
    BrokerError { code: i64, message: String, data: Option<Json> },
    Cancelled,
    Timeout { millis: u64 },
    InvalidParams { method: &'static str, reason: String },
    Protocol(String),
    Internal(String),
}

/// The error member of a JSON-RPC response.
#[derive(Debug)]
pub struct JsonRpcError {
    pub code: i64,
    pub message: String,
    pub data: Option<Json>,
}

/// What `{:?}` writes for a duration of that many milliseconds.
pub uninterp spec fn duration_text(millis: u64) -> Seq<char>;

/// `std::fmt::Debug` of `std::time::Duration`: the text of the duration of `millis`
/// milliseconds. Its form (`30s`, `1.5s`, `250ms`) is left to std; only that it depends
/// on the duration alone is claimed.
#[verifier::external_body]
fn debug_duration(millis: u64) -> (s: String)
    ensures
        s@ == duration_text(millis),
{
    format!("{:?}", std::time::Duration::from_millis(millis))
}

/// The JSON-RPC code of an error.
pub open spec fn code_of(e: BridgeError) -> i64 {
    match e {
        BridgeError::BrokerUnavailable(_) => BROKER_UNAVAILABLE,
        BridgeError::BrokerError { code, .. } => code,
        BridgeError::Cancelled => REQUEST_CANCELLED,
        BridgeError::Timeout { .. } => TIMEOUT,
        BridgeError::InvalidParams { .. } => INVALID_PARAMS,
        BridgeError::Protocol(_) => PROTOCOL_ERROR,
        BridgeError::Internal(_) => INTERNAL_ERROR,
    }
}

/// The JSON-RPC message of an error.
pub open spec fn message_of(e: BridgeError) -> Seq<char> {
    match e {
        BridgeError::BrokerUnavailable(msg) => "BrokerUnavailable: "@ + msg@,
        BridgeError::BrokerError { message, .. } => message@,
        BridgeError::Cancelled => "request cancelled"@,
        BridgeError::Timeout { millis } => "Timeout after "@ + duration_text(millis),
        BridgeError::InvalidParams { method, reason } => "invalid params for "@ + method@ + ": "@
            + reason@,
        BridgeError::Protocol(msg) => "ProtocolError: "@ + msg@,
        BridgeError::Internal(msg) => msg@,
    }
}

/// The JSON-RPC data of an error.
pub open spec fn data_of(e: BridgeError) -> Option<JsonView> {
    match e {
        BridgeError::BrokerError { data, .. } => opt_json(data),
        BridgeError::Timeout { millis } => Some(
            JsonView::Object(seq![("millis"@, JsonView::Number(JsonNumber::PosInt(millis)))]),
        ),
        BridgeError::InvalidParams { method, .. } => Some(
            JsonView::Object(seq![("method"@, JsonView::String(method@))]),
        ),
        _ => None,
    }
}

pub open spec fn opt_json(j: Option<Json>) -> Option<JsonView> {
    match j {
        Some(v) => Some(v@),
        None => None,
    }
}

/// The JSON-RPC form of an error: its code, its message, and what data it carries.
pub fn to_jsonrpc_error(e: &BridgeError) -> (r: JsonRpcError)
    ensures
        r.code == code_of(*e),
        r.message@ == message_of(*e),
        opt_json(r.data) == data_of(*e),
{
    match e {
        BridgeError::BrokerUnavailable(msg) => JsonRpcError {
            code: BROKER_UNAVAILABLE,
            message: join2("BrokerUnavailable: ", msg.as_str()),
            data: None,
        },
        BridgeError::BrokerError { code, message, data } => JsonRpcError {
            code: *code,
            message: message.clone(),
            data: match data {
                Some(d) => Some(d.copy()),
                None => None,
            },
        },
        BridgeError::Cancelled => JsonRpcError {
            code: REQUEST_CANCELLED,
            message: "request cancelled".to_owned(),
            data: None,
        },
        BridgeError::Timeout { millis } => {
            let mut b = ObjectBuilder::new();
            b.put("millis", Json::uint(*millis));
            assert(b@ =~= seq![("millis"@, JsonView::Number(JsonNumber::PosInt(*millis)))]);
            let text = debug_duration(*millis);
            JsonRpcError {
                code: TIMEOUT,
                message: join2("Timeout after ", text.as_str()),
                data: Some(b.done()),
            }
        },
        BridgeError::InvalidParams { method, reason } => {
            let mut b = ObjectBuilder::new();
            b.put("method", Json::text(method));
            assert(b@ =~= seq![("method"@, JsonView::String(method@))]);
            let head = join3("invalid params for ", method, ": ");
            JsonRpcError {
                code: INVALID_PARAMS,
                message: join2(head.as_str(), reason.as_str()),
                data: Some(b.done()),
            }
        },
        BridgeError::Protocol(msg) => JsonRpcError {
            code: PROTOCOL_ERROR,
            message: join2("ProtocolError: ", msg.as_str()),
            data: None,
        },
        BridgeError::Internal(msg) => JsonRpcError {
            code: INTERNAL_ERROR,
            message: msg.clone(),
            data: None,
        },
    }
}

/// What an error says in plain words.
pub open spec fn display_of(e: BridgeError) -> Seq<char> {
    match e {
        BridgeError::BrokerUnavailable(msg) => "broker unavailable: "@ + msg@,
        BridgeError::BrokerError { code, message, .. } => "broker error "@ + signed_decimal(
            code as int,
        ) + ": "@ + message@,
        BridgeError::Cancelled => "request cancelled"@,
        BridgeError::Timeout { millis } => "timed out after "@ + duration_text(millis),
        BridgeError::InvalidParams { method, reason } => "invalid params for "@ + method@ + ": "@
            + reason@,
        BridgeError::Protocol(msg) => "protocol error: "@ + msg@,
        BridgeError::Internal(msg) => "internal: "@ + msg@,
    }
}

/// The decimal numeral of an integer, with a minus sign where it is negative.
pub open spec fn signed_decimal(n: int) -> Seq<char> {
    if n < 0 {
        seq!['-'] + crate::text::decimal((-n) as nat)
    } else {
        crate::text::decimal(n as nat)
    }
}

/// Writes an integer in decimal.
pub fn signed_text(n: i64) -> (s: String)
    ensures
        s@ == signed_decimal(n as int),
{
    if n < 0 {
        let m: u64 = (-(n as i128)) as u64;
        let d = crate::text::decimal_text(m);
        let r = join2("-", d.as_str());
        proof {
            reveal_strlit("-");
            assert("-"@ =~= seq!['-']);
        }
        r
    } else {
        crate::text::decimal_text(n as u64)
    }
}

impl BridgeError {
    /// The error in plain words.
    pub fn describe(&self) -> (s: String)
        ensures
            s@ == display_of(*self),
    {
        match self {
            BridgeError::BrokerUnavailable(msg) => join2("broker unavailable: ", msg.as_str()),
            BridgeError::BrokerError { code, message, .. } => {
                let n = signed_text(*code);
                let head = join3("broker error ", n.as_str(), ": ");
                join2(head.as_str(), message.as_str())
            },
            BridgeError::Cancelled => "request cancelled".to_owned(),
            BridgeError::Timeout { millis } => {
                let text = debug_duration(*millis);
                join2("timed out after ", text.as_str())
            },
            BridgeError::InvalidParams { method, reason } => {
                let head = join3("invalid params for ", method, ": ");
                join2(head.as_str(), reason.as_str())
            },
            BridgeError::Protocol(msg) => join2("protocol error: ", msg.as_str()),
            BridgeError::Internal(msg) => join2("internal: ", msg.as_str()),
        }
    }

    /// The error of a JSON value that could not be read.
    pub fn from_json_failure(reason: &str) -> (e: BridgeError)
        ensures
            e matches BridgeError::InvalidParams { method, reason: why } && method@ == "<unknown>"@
                && why@ == reason@,
    {
        BridgeError::InvalidParams { method: "<unknown>", reason: reason.to_owned() }
    }
}

} // verus!
