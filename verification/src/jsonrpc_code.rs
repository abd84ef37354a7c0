//! JSON-RPC error codes of the bridge and of the broker.
use vstd::prelude::*;

verus! {

/// JSON-RPC: the request text is not JSON.
pub const PARSE_ERROR: i64 = -32700;

pub const INVALID_REQUEST: i64 = -32600;

pub const METHOD_NOT_FOUND: i64 = -32601;

pub const INVALID_PARAMS: i64 = -32602;

pub const INTERNAL_ERROR: i64 = -32603;

/// The convention for a cancelled request.
pub const REQUEST_CANCELLED: i64 = -32800;

pub const SESSION_NOT_FOUND: i64 = -32001;

pub const TAB_NOT_FOUND: i64 = -32002;

pub const CONTEXT_NOT_FOUND: i64 = -32003;

pub const ELEMENT_STALE: i64 = -32004;

pub const ELEMENT_NOT_ACTIONABLE: i64 = -32005;

pub const NAVIGATION_FAILED: i64 = -32006;

pub const TIMEOUT: i64 = -32007;

pub const CHROMIUM_LAUNCH_FAILED: i64 = -32008;

pub const PERMISSION_DENIED: i64 = -32009;

pub const PROTOCOL_ERROR: i64 = -32010;

pub const BROKER_UNAVAILABLE: i64 = -32011;

pub const SESSION_LIMIT_EXCEEDED: i64 = -32012;

} // verus!
