//! What the client asks the broker for and what comes of the answer.
use vstd::prelude::*;

use crate::broker_client::{
    call_outcome, capabilities_for, default_capabilities, register_view, reply_matches,
    request_view, with_capabilities, without_terminator, JsonRpcFrame,
};
use crate::error::{
    code_of, data_of, display_of, duration_text, message_of, signed_decimal, BridgeError,
};
use crate::json::{lemma_member_at, Json, JsonNumber, JsonView};
use crate::text::{
    decimal, decimal_round_trip, ends_with_text, lemma_decimal_reads_back, split_on,
    starts_with_text, trimmed,
};
use crate::trace::parse_signed;

verus! {

/// A session is registered with the name and version of the client, the capabilities that it
/// asks for, in order, and the session that it wants, null where it wants none.
pub proof fn registrations_say_what_is_asked(
    client_name: Seq<char>,
    version: Seq<char>,
    caps: Seq<Seq<char>>,
    session: Option<Seq<char>>,
    i: int,
)
    ensures
        ({
            let j = register_view(client_name, version, caps, session);
            &&& j.member("client_name"@) == Some(JsonView::String(client_name))
            &&& j.member("client_version"@) == Some(JsonView::String(version))
            &&& j.member("capabilities"@) matches Some(JsonView::Array(items))
            &&& items.len() == caps.len()
            &&& 0 <= i < caps.len() ==> items[i] == JsonView::String(caps[i])
            &&& match session {
                Some(s) => j.member("session_id"@) == Some(JsonView::String(s)),
                None => j.member("session_id"@) == Some(JsonView::Null),
            }
        }),
{
    reveal_strlit("client_name");
    reveal_strlit("client_version");
    reveal_strlit("capabilities");
    reveal_strlit("session_id");
    assert("client_name"@.len() == 11 && "client_version"@.len() == 14
        && "capabilities"@.len() == 12 && "session_id"@.len() == 10);
    let m = register_view(client_name, version, caps, session)->Object_0;
    assert(m[0].0 == "client_name"@ && m[1].0 == "client_version"@ && m[2].0 == "capabilities"@
        && m[3].0 == "session_id"@);
    lemma_member_at(m, "client_name"@, 0);
    lemma_member_at(m, "client_version"@, 1);
    lemma_member_at(m, "capabilities"@, 2);
    lemma_member_at(m, "session_id"@, 3);
}

/// A request carries its id, its method and its parameters.
pub proof fn requests_carry_id_method_and_parameters(id: u64, method: Seq<char>, params: JsonView)
    ensures
        ({
            let j = request_view(id, method, params);
            &&& j.member("jsonrpc"@) == Some(JsonView::String("2.0"@))
            &&& j.member("id"@) == Some(JsonView::Number(JsonNumber::PosInt(id)))
            &&& j.member("method"@) == Some(JsonView::String(method))
            &&& j.member("params"@) == Some(params)
        }),
{
    reveal_strlit("jsonrpc");
    reveal_strlit("id");
    reveal_strlit("method");
    reveal_strlit("params");
    assert("jsonrpc"@.len() == 7 && "id"@.len() == 2 && "method"@.len() == 6
        && "params"@.len() == 6 && "method"@[0] == 'm' && "params"@[0] == 'p');
    let m = request_view(id, method, params)->Object_0;
    assert(m[0].0 == "jsonrpc"@ && m[1].0 == "id"@ && m[2].0 == "method"@ && m[3].0 == "params"@);
    lemma_member_at(m, "jsonrpc"@, 0);
    lemma_member_at(m, "id"@, 1);
    lemma_member_at(m, "method"@, 2);
    lemma_member_at(m, "params"@, 3);
}

/// Without an opt-in four capabilities are asked for. With one, a name is asked for just where
/// it is one of these four or stands, trimmed and not blank, between the commas.
pub proof fn capabilities_are_the_defaults_and_what_is_named(raw: Seq<char>, name: Seq<char>)
    ensures
        capabilities_for(None).len() == 4,
        capabilities_for(None)[0] == "tools"@,
        capabilities_for(None)[1] == "events"@,
        capabilities_for(None)[2] == "binary-topics"@,
        capabilities_for(None)[3] == "storage_state"@,
        capabilities_for(Some(raw)).contains(name) <==> capabilities_for(None).contains(name) || (
        name.len() > 0 && exists|i: int|
            0 <= i < split_on(raw, ',').len() && trimmed(#[trigger] split_on(raw, ',')[i]) == name),
{
    lemma_with_capabilities(default_capabilities(), split_on(raw, ','), name);
}

proof fn lemma_with_capabilities(
    caps: Seq<Seq<char>>,
    requested: Seq<Seq<char>>,
    name: Seq<char>,
)
    ensures
        with_capabilities(caps, requested).contains(name) <==> caps.contains(name) || (name.len()
            > 0 && exists|i: int|
            0 <= i < requested.len() && trimmed(#[trigger] requested[i]) == name),
    decreases requested.len(),
{
    if requested.len() > 0 {
        let rest = requested.drop_last();
        let last = requested.len() - 1;
        lemma_with_capabilities(caps, rest, name);
        let before = with_capabilities(caps, rest);
        let t = trimmed(requested.last());
        let after = with_capabilities(caps, requested);
        if before.contains(name) {
            let j = choose|j: int| 0 <= j < before.len() && before[j] == name;
            assert(after[j] == name);
        }
        if name.len() > 0 && t == name && !before.contains(name) {
            assert(after[before.len() as int] == name);
        }
        if after.contains(name) && !before.contains(name) {
            let j = choose|j: int| 0 <= j < after.len() && after[j] == name;
            if j < before.len() {
                assert(before[j] == name);
            }
            assert(trimmed(requested[last]) == name);
        }
        if exists|i: int| 0 <= i < requested.len() && trimmed(#[trigger] requested[i]) == name {
            let i = choose|i: int|
                0 <= i < requested.len() && trimmed(#[trigger] requested[i]) == name;
            if i < last {
                assert(trimmed(rest[i]) == name);
            }
        }
        if exists|i: int| 0 <= i < rest.len() && trimmed(#[trigger] rest[i]) == name {
            let i = choose|i: int| 0 <= i < rest.len() && trimmed(#[trigger] rest[i]) == name;
            assert(trimmed(requested[i]) == name);
        }
    }
}

/// Only a transport failure is tried again, and only while there is time: any other outcome of
/// the first request is that of the call; out of time, the call timed out after its own limit;
/// else the second request decides.
pub proof fn only_transport_failures_are_tried_again(
    first: Result<Json, BridgeError>,
    elapsed_millis: u64,
    second: Result<Json, BridgeError>,
    per_call_millis: u64,
)
    ensures
        ({
            let r = call_outcome(first, elapsed_millis, second, per_call_millis);
            match first {
                Err(BridgeError::BrokerUnavailable(_)) => if elapsed_millis < per_call_millis {
                    r == second
                } else {
                    r matches Err(BridgeError::Timeout { millis }) && millis == per_call_millis
                },
                _ => r == first,
            }
        }),
{
}

/// An error in a reply goes before a result, and is handed on as it came; a reply without
/// either is null.
pub proof fn replies_are_handed_on(frame: JsonRpcFrame, r: Result<Json, BridgeError>)
    requires
        reply_matches(frame, r),
    ensures
        match (frame.error, frame.result) {
            (Some(e), _) => {
                &&& r matches Err(BridgeError::BrokerError { code, message, data })
                &&& code == e.code
                &&& message@ == e.message@
                &&& data is Some <==> e.data is Some
                &&& e.data matches Some(d) ==> data->Some_0@ == d@
            },
            (None, Some(v)) => r matches Ok(j) && j@ == v@,
            (None, None) => r matches Ok(j) && j@ == JsonView::Null,
        },
{
}

/// A line ends in a line feed, or a carriage return and a line feed, or nothing; what stands
/// before that is the message. Nothing else is taken away.
pub proof fn lines_lose_their_end_only(body: Seq<u8>, line: Seq<u8>)
    ensures
        body.len() > 0 && body.last() != 10 && body.last() != 13 ==> {
            &&& without_terminator(body) == body
            &&& without_terminator(body.push(10)) == body
            &&& without_terminator(body.push(13).push(10)) == body
        },
        without_terminator(line).is_prefix_of(line),
        line.len() <= without_terminator(line).len() + 2,
        forall|i: int|
            without_terminator(line).len() <= i < line.len() ==> #[trigger] line[i] == 10 || line[i]
                == 13,
{
    assert(body.push(10).drop_last() =~= body);
    assert(body.push(13).drop_last() =~= body);
    assert(body.push(13).push(10).drop_last() =~= body.push(13));
}

/// The text of an integer reads back as the integer.
pub proof fn integers_read_back(n: i64)
    ensures
        parse_signed(signed_decimal(n as int)) == Some(n as int),
{
    if n < 0 {
        let m = (-(n as int)) as nat;
        lemma_decimal_reads_back(m);
        assert((seq!['-'] + decimal(m)).drop_first() =~= decimal(m));
    } else {
        lemma_decimal_reads_back(n as nat);
        decimal_round_trip(n as nat, 0x7fff_ffff_ffff_ffff);
        assert(crate::text::is_digit(decimal(n as nat)[0]));
    }
}

/// Codes tell failures apart, and a message names the cause of its failure.
pub proof fn errors_name_their_cause(e: BridgeError)
    ensures
        match e {
            BridgeError::BrokerUnavailable(msg) => {
                &&& code_of(e) == -32011
                &&& begins_and_ends(message_of(e), "BrokerUnavailable: "@, msg@)
                &&& begins_and_ends(display_of(e), "broker unavailable: "@, msg@)
                &&& data_of(e) is None
            },
            BridgeError::BrokerError { code, message, data } => {
                &&& code_of(e) == code
                &&& message_of(e) == message@
                &&& begins_and_ends(
                    display_of(e),
                    "broker error "@ + signed_decimal(code as int) + ": "@,
                    message@,
                )
                &&& data is None <==> data_of(e) is None
                &&& data matches Some(d) ==> data_of(e) == Some(d@)
            },
            BridgeError::Cancelled => {
                &&& code_of(e) == -32800
                &&& message_of(e) == "request cancelled"@
                &&& display_of(e) == "request cancelled"@
                &&& data_of(e) is None
            },
            BridgeError::Timeout { millis } => {
                &&& code_of(e) == -32007
                &&& begins_and_ends(message_of(e), "Timeout after "@, duration_text(millis))
                &&& begins_and_ends(display_of(e), "timed out after "@, duration_text(millis))
                &&& data_of(e) is Some
            },
            BridgeError::InvalidParams { method, reason } => {
                &&& code_of(e) == -32602
                &&& begins_and_ends(
                    message_of(e),
                    "invalid params for "@ + method@ + ": "@,
                    reason@,
                )
                &&& display_of(e) == message_of(e)
                &&& data_of(e) is Some
            },
            BridgeError::Protocol(msg) => {
                &&& code_of(e) == -32010
                &&& begins_and_ends(message_of(e), "ProtocolError: "@, msg@)
                &&& begins_and_ends(display_of(e), "protocol error: "@, msg@)
                &&& data_of(e) is None
            },
            BridgeError::Internal(msg) => {
                &&& code_of(e) == -32603
                &&& message_of(e) == msg@
                &&& begins_and_ends(display_of(e), "internal: "@, msg@)
                &&& data_of(e) is None
            },
        },
{
    match e {
        BridgeError::BrokerUnavailable(msg) => {
            lemma_begins_and_ends("BrokerUnavailable: "@, msg@);
            lemma_begins_and_ends("broker unavailable: "@, msg@);
        },
        BridgeError::BrokerError { code, message, .. } => {
            lemma_begins_and_ends(
                "broker error "@ + signed_decimal(code as int) + ": "@,
                message@,
            );
        },
        BridgeError::Cancelled => {},
        BridgeError::Timeout { millis } => {
            lemma_begins_and_ends("Timeout after "@, duration_text(millis));
            lemma_begins_and_ends("timed out after "@, duration_text(millis));
        },
        BridgeError::InvalidParams { method, reason } => {
            lemma_begins_and_ends("invalid params for "@ + method@ + ": "@, reason@);
        },
        BridgeError::Protocol(msg) => {
            lemma_begins_and_ends("ProtocolError: "@, msg@);
            lemma_begins_and_ends("protocol error: "@, msg@);
        },
        BridgeError::Internal(msg) => {
            lemma_begins_and_ends("internal: "@, msg@);
        },
    }
}

/// The text has that beginning and that end, and nothing between them.
pub open spec fn begins_and_ends(text: Seq<char>, head: Seq<char>, tail: Seq<char>) -> bool {
    &&& text.len() == head.len() + tail.len()
    &&& starts_with_text(text, head)
    &&& ends_with_text(text, tail)
}

proof fn lemma_begins_and_ends(head: Seq<char>, tail: Seq<char>)
    ensures
        begins_and_ends(head + tail, head, tail),
{
    let text = head + tail;
    assert(text.subrange(0, head.len() as int) =~= head);
    assert(text.subrange(text.len() - tail.len(), text.len() as int) =~= tail);
}

} // verus!
