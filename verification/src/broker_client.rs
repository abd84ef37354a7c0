//! The broker connection: what is sent, how replies are told apart, and when a call is
//! tried again.
use vstd::prelude::*;

use crate::error::{opt_json, BridgeError};
use crate::json::{array_of_texts, texts_view, Json, JsonNumber, JsonView, ObjectBuilder};
use crate::mcp::{copy_bytes, json_or_null, object_view};
use crate::text::{
    chars_of, decimal, decimal_text, join2, join3, joined, lacks, lemma_split_lacks, lemma_trimmed,
    lemma_trimmed_fixed, same_text, split_chars, split_on, splitting_undoes_joining, string_of,
    trim_chars, trim_text, trimmed, utf8_text,
};

verus! {

/// Milliseconds that a call may take where nothing else is said.
pub const DEFAULT_CALL_TIMEOUT_MILLIS: u64 = 30_000;

/// Milliseconds that the registration of a session may take.
pub const REGISTER_TIMEOUT_MILLIS: u64 = 5_000;

/// How one call is made.
#[derive(Clone, Copy, Debug)]
pub struct CallOptions {
    pub timeout_millis: u64,
}

impl Default for CallOptions {
    fn default() -> (o: CallOptions)
        ensures
            o.timeout_millis == DEFAULT_CALL_TIMEOUT_MILLIS,
    {
        CallOptions { timeout_millis: DEFAULT_CALL_TIMEOUT_MILLIS }
    }
}

/// The longest line, its terminator included, that is taken from the broker or sent to it.
pub const MAX_LINE_BYTES: usize = 16 * 1024 * 1024;

/// The launchd label of the broker.
pub const KICKSTART_LABEL: &'static str = "io.github.elijahumana.one-for-all";

/// The capabilities that every session asks for.
pub const DEFAULT_REGISTER_CAPABILITIES: [&'static str; 4] = [
    "tools",
    "events",
    "binary-topics",
    "storage_state",
];

/// Waits between the attempts to connect after the broker was started.
pub const CONNECT_BACKOFF_MS: [u64; 6] = [50, 100, 200, 400, 800, 1600];

/// The default capabilities, as texts.
pub open spec fn default_capabilities() -> Seq<Seq<char>> {
    seq!["tools"@, "events"@, "binary-topics"@, "storage_state"@]
}

/// Adds the requested names to a capability list, in order: blank names and names that
/// are already there are passed over.
pub open spec fn with_capabilities(
    caps: Seq<Seq<char>>,
    requested: Seq<Seq<char>>,
) -> Seq<Seq<char>>
    decreases requested.len(),
{
    if requested.len() == 0 {
        caps
    } else {
        let before = with_capabilities(caps, requested.drop_last());
        let name = trimmed(requested.last());
        if name.len() == 0 || before.contains(name) {
            before
        } else {
            before.push(name)
        }
    }
}

/// The capabilities of a session for that value of the opt-in variable.
pub open spec fn capabilities_for(raw: Option<Seq<char>>) -> Seq<Seq<char>> {
    match raw {
        Some(s) => with_capabilities(default_capabilities(), split_on(s, ',')),
        None => default_capabilities(),
    }
}

/// The views of a list of strings.
pub open spec fn texts(v: Seq<String>) -> Seq<Seq<char>> {
    v.map_values(|s: String| s@)
}

/// Whether the list holds that text.
pub fn holds_text(v: &Vec<String>, name: &str) -> (r: bool)
    ensures
        r == texts(v@).contains(name@),
{
    let mut i: usize = 0;
    while i < v.len()
        invariant
            i <= v@.len(),
            forall|k: int| 0 <= k < i ==> texts(v@)[k] != name@,
        decreases v@.len() - i,
    {
        if same_text(v[i].as_str(), name) {
            assert(texts(v@)[i as int] == name@);
            return true;
        }
        i += 1;
    }
    false
}

/// The capabilities that a session registers: the defaults, then what the comma-separated
/// opt-in list adds.
pub fn register_capabilities_from(raw: Option<&str>) -> (caps: Vec<String>)
    ensures
        texts(caps@) == capabilities_for(
            match raw {
                Some(s) => Some(s@),
                None => None,
            },
        ),
{
    let mut caps: Vec<String> = Vec::new();
    caps.push(DEFAULT_REGISTER_CAPABILITIES[0].to_owned());
    caps.push(DEFAULT_REGISTER_CAPABILITIES[1].to_owned());
    caps.push(DEFAULT_REGISTER_CAPABILITIES[2].to_owned());
    caps.push(DEFAULT_REGISTER_CAPABILITIES[3].to_owned());
    assert(texts(caps@) =~= default_capabilities());
    match raw {
        None => caps,
        Some(raw) => {
            let chars = chars_of(raw);
            let parts = split_chars(chars.as_slice(), ',');
            let ghost all = split_on(raw@, ',');
            let mut i: usize = 0;
            assert(all.take(0) =~= Seq::<Seq<char>>::empty());
            while i < parts.len()
                invariant
                    i <= parts@.len(),
                    parts@.len() == all.len(),
                    forall|k: int| 0 <= k < parts@.len() ==> (#[trigger] parts@[k])@ == all[k],
                    texts(caps@) == with_capabilities(default_capabilities(), all.take(i as int)),
                decreases parts@.len() - i,
            {
                assert(all.take(i + 1).drop_last() =~= all.take(i as int));
                let name = string_of(trim_chars(parts[i].as_slice()).as_slice());
                if name.as_str().is_empty() || holds_text(&caps, name.as_str()) {
                } else {
                    let ghost before = texts(caps@);
                    caps.push(name);
                    assert(texts(caps@) =~= before.push(name@));
                }
                i += 1;
            }
            assert(all.take(all.len() as int) =~= all);
            caps
        },
    }
}

pub open spec fn all_distinct(s: Seq<Seq<char>>) -> bool {
    forall|i: int, j: int| 0 <= i < j < s.len() ==> s[i] != s[j]
}

proof fn lemma_with_capabilities(caps: Seq<Seq<char>>, requested: Seq<Seq<char>>)
    requires
        all_distinct(caps),
    ensures
        all_distinct(with_capabilities(caps, requested)),
        caps.is_prefix_of(with_capabilities(caps, requested)),
    decreases requested.len(),
{
    if requested.len() > 0 {
        lemma_with_capabilities(caps, requested.drop_last());
        let before = with_capabilities(caps, requested.drop_last());
        let after = with_capabilities(caps, requested);
        assert(before.is_prefix_of(after));
        if after != before {
            assert forall|i: int, j: int| 0 <= i < j < after.len() implies after[i] != after[j] by {
                if j == before.len() {
                    assert(before.contains(before[i]));
                }
            }
        }
    }
}

/// Whatever is asked for, a session registers every default capability first, and no
/// capability twice.
pub proof fn capabilities_keep_defaults_and_are_distinct(raw: Option<Seq<char>>)
    ensures
        default_capabilities().is_prefix_of(capabilities_for(raw)),
        all_distinct(capabilities_for(raw)),
{
    let d = default_capabilities();
    assert(all_distinct(d)) by {
        reveal_strlit("tools");
        reveal_strlit("events");
        reveal_strlit("binary-topics");
        reveal_strlit("storage_state");
        assert(d[0].len() == 5 && d[1].len() == 6 && d[2].len() == 13 && d[3].len() == 13);
        assert(d[2][0] == 'b' && d[3][0] == 's');
    }
    match raw {
        Some(s) => {
            lemma_with_capabilities(d, split_on(s, ','));
        },
        None => {},
    }
}

/// A name as it stands in a capability list: not blank, trimmed, and without a comma.
pub open spec fn is_plain(name: Seq<char>) -> bool {
    name.len() > 0 && trimmed(name) == name && lacks(name, ',')
}

proof fn lemma_defaults_plain()
    ensures
        forall|i: int|
            0 <= i < default_capabilities().len() ==> is_plain(#[trigger] default_capabilities()[i]),
{
    reveal_strlit("tools");
    reveal_strlit("events");
    reveal_strlit("binary-topics");
    reveal_strlit("storage_state");
    let d = default_capabilities();
    assert(d[0].last() == 's' && d[1].last() == 's' && d[2].last() == 's' && d[3].last() == 'e');
    lemma_trimmed_fixed(d[0]);
    lemma_trimmed_fixed(d[1]);
    lemma_trimmed_fixed(d[2]);
    lemma_trimmed_fixed(d[3]);
}

proof fn lemma_plain(caps: Seq<Seq<char>>, requested: Seq<Seq<char>>)
    requires
        forall|i: int| 0 <= i < caps.len() ==> is_plain(#[trigger] caps[i]),
        forall|i: int| 0 <= i < requested.len() ==> lacks(#[trigger] requested[i], ','),
    ensures
        forall|i: int|
            0 <= i < with_capabilities(caps, requested).len() ==> is_plain(
                #[trigger] with_capabilities(caps, requested)[i],
            ),
    decreases requested.len(),
{
    if requested.len() > 0 {
        let rest = requested.drop_last();
        assert forall|i: int| 0 <= i < rest.len() implies lacks(#[trigger] rest[i], ',') by {
            assert(rest[i] == requested[i]);
        }
        lemma_plain(caps, rest);
        assert(requested.last() == requested[requested.len() - 1]);
        lemma_trimmed(requested.last(), ',');
        let before = with_capabilities(caps, rest);
        let after = with_capabilities(caps, requested);
        assert forall|i: int| 0 <= i < after.len() implies is_plain(#[trigger] after[i]) by {
            if i < before.len() {
                assert(after[i] == before[i]);
            }
        }
    }
}

proof fn lemma_asked_again(base: Seq<Seq<char>>, caps: Seq<Seq<char>>, k: int)
    requires
        0 <= k <= caps.len(),
        base.is_prefix_of(caps),
        all_distinct(caps),
        forall|i: int| 0 <= i < caps.len() ==> is_plain(#[trigger] caps[i]),
    ensures
        with_capabilities(base, caps.take(k)) == (if k <= base.len() {
            base
        } else {
            caps.take(k)
        }),
    decreases k,
{
    if k > 0 {
        lemma_asked_again(base, caps, k - 1);
        assert(caps.take(k).drop_last() =~= caps.take(k - 1));
        let name = caps[k - 1];
        assert(caps.take(k).last() == name && is_plain(name));
        let before = with_capabilities(base, caps.take(k - 1));
        if k <= base.len() {
            assert(base[k - 1] == name);
        } else {
            assert(before =~= caps.take(k - 1));
            assert forall|i: int| 0 <= i < before.len() implies before[i] != name by {
                assert(caps[i] != caps[k - 1]);
            }
            assert(caps.take(k - 1).push(name) =~= caps.take(k));
        }
    }
}

/// Asking for what a session has registered, as a comma-separated list, registers exactly
/// that.
pub proof fn asking_for_capabilities_again_changes_nothing(raw: Option<Seq<char>>)
    ensures
        capabilities_for(Some(joined(capabilities_for(raw), seq![',']))) == capabilities_for(raw),
{
    let caps = capabilities_for(raw);
    let base = default_capabilities();
    capabilities_keep_defaults_and_are_distinct(raw);
    lemma_defaults_plain();
    match raw {
        Some(s) => {
            lemma_split_lacks(s, ',');
            lemma_plain(base, split_on(s, ','));
        },
        None => {},
    }
    assert forall|i: int| 0 <= i < caps.len() implies lacks(#[trigger] caps[i], ',') by {
        assert(is_plain(caps[i]));
    }
    splitting_undoes_joining(caps, ',');
    lemma_asked_again(base, caps, caps.len() as int);
    assert(caps.take(caps.len() as int) =~= caps);
    if caps.len() == base.len() {
        assert(caps =~= base);
    }
}

/// The session id that registration asks for: one that is not blank.
pub fn requested_session(value: Option<String>) -> (r: Option<String>)
    ensures
        match value {
            Some(v) => if trimmed(v@).len() == 0 {
                r is None
            } else {
                r matches Some(id) && id@ == v@
            },
            None => r is None,
        },
{
    match value {
        Some(v) => {
            let t = trim_text(v.as_str());
            if t.as_str().is_empty() {
                None
            } else {
                Some(v)
            }
        },
        None => None,
    }
}

/// The parameters of `session.register`.
pub open spec fn register_view(
    client_name: Seq<char>,
    version: Seq<char>,
    caps: Seq<Seq<char>>,
    session: Option<Seq<char>>,
) -> JsonView {
    object_view(
        seq![
            ("client_name"@, JsonView::String(client_name)),
            ("client_version"@, JsonView::String(version)),
            ("capabilities"@, texts_view(caps)),
            (
                "session_id"@,
                match session {
                    Some(s) => JsonView::String(s),
                    None => JsonView::Null,
                },
            ),
        ],
    )
}

/// The view of an optional string.
pub open spec fn opt_text(s: Option<String>) -> Option<Seq<char>> {
    match s {
        Some(t) => Some(t@),
        None => None,
    }
}

/// The parameters of `session.register`.
pub fn register_params(
    client_name: &str,
    version: &str,
    caps: &Vec<String>,
    session: &Option<String>,
) -> (j: Json)
    ensures
        j@ == register_view(client_name@, version@, texts(caps@), opt_text(*session)),
{
    let mut b = ObjectBuilder::new();
    b.put("client_name", Json::text(client_name));
    b.put("client_version", Json::text(version));
    b.put("capabilities", array_of_texts(caps));
    b.put(
        "session_id",
        match session {
            Some(s) => Json::text(s.as_str()),
            None => Json::Null,
        },
    );
    assert(b@ =~= register_view(
        client_name@,
        version@,
        texts(caps@),
        opt_text(*session),
    )->Object_0);
    b.done()
}

/// The session id of a registration reply, which was read with that outcome.
pub fn register_outcome(read: Result<String, String>) -> (r: Result<String, BridgeError>)
    ensures
        match read {
            Ok(id) => r matches Ok(s) && s@ == id@,
            Err(why) => r matches Err(BridgeError::Protocol(msg)) && msg@
                == "session.register result malformed: "@ + why@,
        },
{
    match read {
        Ok(id) => Ok(id),
        Err(why) => Err(
            BridgeError::Protocol(join2("session.register result malformed: ", why.as_str())),
        ),
    }
}

/// A JSON-RPC request.
pub open spec fn request_view(id: u64, method: Seq<char>, params: JsonView) -> JsonView {
    object_view(
        seq![
            ("jsonrpc"@, JsonView::String("2.0"@)),
            ("id"@, JsonView::Number(JsonNumber::PosInt(id))),
            ("method"@, JsonView::String(method)),
            ("params"@, params),
        ],
    )
}

/// A JSON-RPC request.
pub fn request_json(id: u64, method: &str, params: &Json) -> (j: Json)
    ensures
        j@ == request_view(id, method@, params@),
{
    let mut b = ObjectBuilder::new();
    b.put("jsonrpc", Json::text("2.0"));
    b.put("id", Json::uint(id));
    b.put("method", Json::text(method));
    b.put("params", params.copy());
    assert(b@ =~= request_view(id, method@, params@)->Object_0);
    b.done()
}

/// Refuses a request that is longer than a line may be.
pub fn check_outbound(len: usize) -> (r: Result<(), BridgeError>)
    ensures
        r is Ok <==> len <= MAX_LINE_BYTES,
        len > MAX_LINE_BYTES ==> (r matches Err(BridgeError::Protocol(msg)) && msg@
            == "outbound frame "@ + decimal(len as nat) + " bytes exceeds 16MB cap"@),
{
    if len > MAX_LINE_BYTES {
        let n = decimal_text(len as u64);
        Err(BridgeError::Protocol(join3("outbound frame ", n.as_str(), " bytes exceeds 16MB cap")))
    } else {
        Ok(())
    }
}

/// How the wait for a reply ended.
#[derive(Debug)]
pub enum Waited {
    Replied(Result<Json, BridgeError>),
    /// The connection went down before a reply came.
    Dropped,
    TimedOut,
}

/// The outcome of one request.
pub fn send_outcome(waited: Waited, per_call_millis: u64) -> (r: Result<Json, BridgeError>)
    ensures
        match waited {
            Waited::Replied(reply) => r == reply,
            Waited::Dropped => r matches Err(BridgeError::BrokerUnavailable(msg)) && msg@
                == "inflight dropped"@,
            Waited::TimedOut => r matches Err(BridgeError::Timeout { millis }) && millis
                == per_call_millis,
        },
{
    match waited {
        Waited::Replied(reply) => reply,
        Waited::Dropped => Err(BridgeError::BrokerUnavailable("inflight dropped".to_owned())),
        Waited::TimedOut => Err(BridgeError::Timeout { millis: per_call_millis }),
    }
}

/// What a call does after one request.
#[derive(Debug)]
pub enum AfterSend {
    /// The call is over.
    Finish(Result<Json, BridgeError>),
    /// Connect again, then ask whether there is time left for another request.
    Redial,
}

/// The outcome is a transport failure.
pub open spec fn is_unavailable(r: Result<Json, BridgeError>) -> bool {
    r matches Err(BridgeError::BrokerUnavailable(_))
}

/// Decides after a request: the first one is followed by a new connection where the
/// transport failed; everything else ends the call.
pub fn after_send(first: bool, outcome: Result<Json, BridgeError>) -> (r: AfterSend)
    ensures
        match r {
            AfterSend::Finish(res) => res == outcome && !(first && is_unavailable(outcome)),
            AfterSend::Redial => first && is_unavailable(outcome),
        },
{
    match outcome {
        Err(BridgeError::BrokerUnavailable(msg)) => {
            if first {
                AfterSend::Redial
            } else {
                AfterSend::Finish(Err(BridgeError::BrokerUnavailable(msg)))
            }
        },
        other => AfterSend::Finish(other),
    }
}

/// Decides after a new connection was tried: a call that has used up its time fails.
pub fn after_redial(elapsed_millis: u64, per_call_millis: u64) -> (r: Option<BridgeError>)
    ensures
        r is Some <==> elapsed_millis >= per_call_millis,
        r is Some ==> (r matches Some(BridgeError::Timeout { millis }) && millis
            == per_call_millis),
{
    if elapsed_millis >= per_call_millis {
        Some(BridgeError::Timeout { millis: per_call_millis })
    } else {
        None
    }
}

/// What a call comes to: `first` is the outcome of the first request, `elapsed_millis` the
/// time used when a new connection was tried, `second` the outcome of a second request.
pub open spec fn call_outcome(
    first: Result<Json, BridgeError>,
    elapsed_millis: u64,
    second: Result<Json, BridgeError>,
    per_call_millis: u64,
) -> Result<Json, BridgeError> {
    if !is_unavailable(first) {
        first
    } else if elapsed_millis >= per_call_millis {
        Err(BridgeError::Timeout { millis: per_call_millis })
    } else {
        second
    }
}

/// The result of a call from the outcomes of its requests. A second request is made only
/// where the transport failed under the first one and time was left.
pub fn send_with_timeout(
    first: Result<Json, BridgeError>,
    elapsed_millis: u64,
    second: Result<Json, BridgeError>,
    per_call_millis: u64,
) -> (r: Result<Json, BridgeError>)
    ensures
        r == call_outcome(first, elapsed_millis, second, per_call_millis),
{
    match after_send(true, first) {
        AfterSend::Finish(res) => res,
        AfterSend::Redial => match after_redial(elapsed_millis, per_call_millis) {
            Some(e) => Err(e),
            None => match after_send(false, second) {
                AfterSend::Finish(res) => res,
                AfterSend::Redial => Err(
                    BridgeError::BrokerUnavailable("redial failed".to_owned()),
                ),
            },
        },
    }
}

/// What is done after a failed attempt to connect.
#[derive(Clone, Copy, Debug, PartialEq, Eq, Structural)]
pub enum DialAction {
    /// Start the broker, wait that long, and try again.
    KickstartThenWait { millis: u64 },
    Wait { millis: u64 },
    GiveUp,
}

/// What is done after that many failed attempts to connect: the first failure starts the
/// broker, and each further attempt waits twice as long as the one before.
pub fn after_dial_failure(failures: usize) -> (r: DialAction)
    requires
        failures >= 1,
    ensures
        r == (if failures == 1 {
            DialAction::KickstartThenWait { millis: CONNECT_BACKOFF_MS@[0] }
        } else if failures <= 6 {
            DialAction::Wait { millis: CONNECT_BACKOFF_MS@[failures - 1] }
        } else {
            DialAction::GiveUp
        }),
{
    if failures == 1 {
        DialAction::KickstartThenWait { millis: CONNECT_BACKOFF_MS[0] }
    } else if failures <= 6 {
        DialAction::Wait { millis: CONNECT_BACKOFF_MS[failures - 1] }
    } else {
        DialAction::GiveUp
    }
}

/// The error of a broker that could not be reached.
pub fn dial_failure(socket: &str) -> (e: BridgeError)
    ensures
        e matches BridgeError::BrokerUnavailable(msg) && msg@ == "could not connect to "@ + socket@
            + " after kickstart"@,
{
    BridgeError::BrokerUnavailable(join3("could not connect to ", socket, " after kickstart"))
}

/// The launchd target of the broker for that user.
pub fn kickstart_target(uid: u32) -> (s: String)
    ensures
        s@ == "gui/"@ + decimal(uid as nat) + "/"@ + KICKSTART_LABEL@,
{
    let n = decimal_text(uid as u64);
    let head = join3("gui/", n.as_str(), "/");
    join2(head.as_str(), KICKSTART_LABEL)
}

/// A line from the broker, without its terminator.
#[derive(Debug)]
pub enum BrokerLine {
    /// Longer than a line may be; it is dropped.
    TooLong,
    Empty,
    /// A binary message.
    Binary(Vec<u8>),
    /// A JSON message.
    Text(String),
    NotUtf8,
}

/// The bytes without `b` at their end, if it is there.
pub open spec fn without_last(line: Seq<u8>, b: u8) -> Seq<u8> {
    if line.len() > 0 && line.last() == b {
        line.drop_last()
    } else {
        line
    }
}

/// The bytes without a line feed at their end, and then without a carriage return.
pub open spec fn without_terminator(line: Seq<u8>) -> Seq<u8> {
    without_last(without_last(line, 10), 13)
}

/// Tells the kinds of broker lines apart: a line that starts with the byte one is binary,
/// any other must be UTF-8.
pub fn classify_line(line: &[u8]) -> (r: BrokerLine)
    ensures
        ({
            let t = without_terminator(line@);
            if line@.len() > MAX_LINE_BYTES {
                r is TooLong
            } else if t.len() == 0 {
                r is Empty
            } else if t[0] == 1 {
                r matches BrokerLine::Binary(b) && b@ == t
            } else if vstd::utf8::valid_utf8(t) {
                r matches BrokerLine::Text(s) && s@ == vstd::utf8::decode_utf8(t)
            } else {
                r is NotUtf8
            }
        }),
{
    if line.len() > MAX_LINE_BYTES {
        return BrokerLine::TooLong;
    }
    let mut n: usize = line.len();
    if n > 0 && line[n - 1] == 10 {
        n = n - 1;
    }
    assert(line@.take(n as int) =~= without_last(line@, 10));
    if n > 0 && line[n - 1] == 13 {
        n = n - 1;
    }
    assert(line@.take(n as int) =~= without_terminator(line@));
    let t = copy_bytes(line, 0, n);
    assert(t@ =~= without_terminator(line@));
    if n == 0 {
        BrokerLine::Empty
    } else if t[0] == 1 {
        BrokerLine::Binary(t)
    } else {
        match utf8_text(t.as_slice()) {
            Some(s) => BrokerLine::Text(s),
            None => BrokerLine::NotUtf8,
        }
    }
}

/// The error member of a broker reply.
#[derive(Debug)]
pub struct JsonRpcErrorBody {
    pub code: i64,
    pub message: String,
    pub data: Option<Json>,
}

/// A JSON message of the broker: a reply where it has an id, else a notification.
#[derive(Debug)]
pub struct JsonRpcFrame {
    pub id: Option<u64>,
    pub result: Option<Json>,
    pub error: Option<JsonRpcErrorBody>,
    pub method: Option<String>,
    pub params: Option<Json>,
}

/// A notification of the broker.
#[derive(Debug)]
pub struct BrokerNotification {
    pub method: String,
    pub params: Json,
}

/// The requests that wait for a reply, each under its id. `T` is what wakes the caller.
pub struct Inflight<T> {
    next_id: u64,
    waiting: Vec<(u64, T)>,
}

/// What is done with a broker message.
pub enum Delivery<T> {
    /// A reply goes to the caller that waits for it.
    Reply { waiter: T, result: Result<Json, BridgeError> },
    /// Nobody waits for that reply.
    Unmatched { id: u64 },
    Notify(BrokerNotification),
    /// A message with neither an id nor a method.
    Malformed,
}

/// The position of an id among the waiting ones.
pub open spec fn waiting_at<T>(w: Seq<(u64, T)>, id: u64) -> Option<int>
    decreases w.len(),
{
    if w.len() == 0 {
        None
    } else if w.last().0 == id {
        Some(w.len() - 1)
    } else {
        waiting_at(w.drop_last(), id)
    }
}

/// The outcome that a reply carries.
pub open spec fn reply_matches(frame: JsonRpcFrame, r: Result<Json, BridgeError>) -> bool {
    match frame.error {
        Some(err) => r matches Err(BridgeError::BrokerError { code, message, data }) && code
            == err.code && message@ == err.message@ && opt_json(data) == opt_json(err.data),
        None => r matches Ok(j) && j@ == json_or_null(frame.result),
    }
}

impl<T> View for Inflight<T> {
    type V = Map<u64, T>;

    closed spec fn view(&self) -> Map<u64, T> {
        Map::new(
            |id: u64| waiting_at(self.waiting@, id) is Some,
            |id: u64| self.waiting@[waiting_at(self.waiting@, id)->Some_0].1,
        )
    }
}

proof fn lemma_waiting_at<T>(w: Seq<(u64, T)>, id: u64)
    ensures
        match waiting_at(w, id) {
            Some(i) => 0 <= i < w.len() && w[i].0 == id && forall|k: int|
                i < k < w.len() ==> (#[trigger] w[k]).0 != id,
            None => forall|k: int| 0 <= k < w.len() ==> (#[trigger] w[k]).0 != id,
        },
    decreases w.len(),
{
    if w.len() > 0 && w.last().0 != id {
        lemma_waiting_at(w.drop_last(), id);
        match waiting_at(w, id) {
            Some(i) => {
                assert(w.drop_last()[i] == w[i]);
                assert forall|k: int| i < k < w.len() implies (#[trigger] w[k]).0 != id by {
                    if k < w.len() - 1 {
                        assert(w.drop_last()[k] == w[k]);
                    }
                }
            },
            None => {
                assert forall|k: int| 0 <= k < w.len() implies (#[trigger] w[k]).0 != id by {
                    if k < w.len() - 1 {
                        assert(w.drop_last()[k] == w[k]);
                    }
                }
            },
        }
    }
}

pub open spec fn ids_distinct<T>(w: Seq<(u64, T)>) -> bool {
    forall|i: int, j: int| 0 <= i < j < w.len() ==> (#[trigger] w[i]).0 != (#[trigger] w[j]).0
}

proof fn lemma_waiting_member<T>(w: Seq<(u64, T)>, i: int)
    requires
        ids_distinct(w),
        0 <= i < w.len(),
    ensures
        waiting_at(w, w[i].0) == Some(i),
{
    lemma_waiting_at(w, w[i].0);
    match waiting_at(w, w[i].0) {
        Some(k) => {
            if k < i {
                assert(w[i].0 != w[i].0);
            }
            if i < k {
                assert(w[i].0 != w[k].0);
            }
        },
        None => {
            assert(w[i].0 != w[i].0);
        },
    }
}

impl<T> Inflight<T> {
    /// No id waits twice.
    pub closed spec fn wf(self) -> bool {
        ids_distinct(self.waiting@)
    }

    /// The id that the next request gets.
    pub closed spec fn next(self) -> u64 {
        self.next_id
    }

    pub fn new() -> (s: Inflight<T>)
        ensures
            s.wf(),
            s@ == Map::<u64, T>::empty(),
            s.next() == 1,
    {
        let s = Inflight { next_id: 1, waiting: Vec::new() };
        assert(s@ =~= Map::<u64, T>::empty());
        s
    }

    /// The id of the next request. Ids count up and start anew at zero behind the last one.
    pub fn take_id(&mut self) -> (id: u64)
        requires
            old(self).wf(),
        ensures
            id == old(self).next(),
            final(self).next() == (if id == u64::MAX {
                0
            } else {
                (id + 1) as u64
            }),
            final(self)@ == old(self)@,
            final(self).wf(),
    {
        let id: u64 = self.next_id;
        self.next_id = if id == u64::MAX {
            0
        } else {
            id + 1
        };
        assert(self@ =~= old(self)@);
        id
    }

    /// Takes out what waits under an id.
    pub fn remove(&mut self, id: u64) -> (r: Option<T>)
        requires
            old(self).wf(),
        ensures
            final(self).wf(),
            final(self).next() == old(self).next(),
            final(self)@ == old(self)@.remove(id),
            match r {
                Some(t) => old(self)@.contains_key(id) && t == old(self)@[id],
                None => !old(self)@.contains_key(id),
            },
    {
        let ghost w = self.waiting@;
        let n: usize = self.waiting.len();
        let mut i: usize = 0;
        while i < n
            invariant
                i <= n,
                n == self.waiting@.len(),
                self.waiting@ == w,
                self.next_id == old(self).next_id,
                w == old(self).waiting@,
                ids_distinct(w),
                forall|k: int| 0 <= k < i ==> (#[trigger] w[k]).0 != id,
            decreases n - i,
        {
            if self.waiting[i].0 == id {
                proof {
                    lemma_waiting_member(w, i as int);
                }
                let (_, t) = self.waiting.remove(i);
                proof {
                    let v = self.waiting@;
                    assert(v =~= w.remove(i as int));
                    assert forall|a: int, b: int| 0 <= a < b < v.len() implies (#[trigger] v[a]).0
                        != (#[trigger] v[b]).0 by {
                        let a2 = if a < i {
                            a
                        } else {
                            a + 1
                        };
                        let b2 = if b < i {
                            b
                        } else {
                            b + 1
                        };
                        assert(v[a] == w[a2] && v[b] == w[b2]);
                    }
                    assert forall|x: u64|
                        #![trigger self@.contains_key(x)]
                        self@.contains_key(x) == old(self)@.remove(id).contains_key(x) && (
                        self@.contains_key(x) ==> self@[x] == old(self)@.remove(id)[x]) by {
                        lemma_waiting_at(v, x);
                        lemma_waiting_at(w, x);
                        match waiting_at(v, x) {
                            Some(k) => {
                                let k2 = if k < i {
                                    k
                                } else {
                                    k + 1
                                };
                                assert(v[k] == w[k2]);
                                lemma_waiting_member(w, k2);
                                if x == id {
                                    lemma_waiting_member(w, i as int);
                                }
                            },
                            None => {
                                match waiting_at(w, x) {
                                    Some(k) => {
                                        if k != i {
                                            let k2 = if k < i {
                                                k
                                            } else {
                                                k - 1
                                            };
                                            assert(v[k2] == w[k]);
                                            assert(v[k2].0 != x);
                                        }
                                    },
                                    None => {},
                                }
                            },
                        }
                    }
                    assert(self@ =~= old(self)@.remove(id));
                }
                return Some(t);
            }
            i += 1;
        }
        proof {
            lemma_waiting_at(w, id);
            assert(!old(self)@.contains_key(id));
            assert(self@ =~= old(self)@.remove(id));
        }
        None
    }

    /// Lets a caller wait under an id. Whoever waited under it before is replaced.
    pub fn insert(&mut self, id: u64, waiter: T)
        requires
            old(self).wf(),
        ensures
            final(self).wf(),
            final(self).next() == old(self).next(),
            final(self)@ == old(self)@.insert(id, waiter),
    {
        let _ = self.remove(id);
        let ghost w = self.waiting@;
        proof {
            lemma_waiting_at(w, id);
            assert(!self@.contains_key(id));
        }
        self.waiting.push((id, waiter));
        proof {
            let v = self.waiting@;
            assert forall|a: int, b: int| 0 <= a < b < v.len() implies (#[trigger] v[a]).0 != (
            #[trigger] v[b]).0 by {
                assert(v[a] == w[a]);
                if b < w.len() {
                    assert(v[b] == w[b]);
                } else {
                    assert(w[a].0 != id);
                }
            }
            assert(v.drop_last() =~= w);
            assert forall|x: u64|
                #![trigger self@.contains_key(x)]
                self@.contains_key(x) == old(self)@.insert(id, waiter).contains_key(x) && (
                self@.contains_key(x) ==> self@[x] == old(self)@.insert(id, waiter)[x]) by {
                lemma_waiting_at(w, x);
                assert(x != id ==> waiting_at(v, x) == waiting_at(w, x));
                assert(old(self)@.remove(id).contains_key(x) == (waiting_at(w, x) is Some));
                if x != id && waiting_at(w, x) is Some {
                    let k = waiting_at(w, x)->Some_0;
                    assert(v[k] == w[k]);
                    assert(old(self)@.remove(id)[x] == w[k].1);
                }
            }
            assert(self@ =~= old(self)@.insert(id, waiter));
        }
    }

    /// Takes out everyone who waits, in the order in which they came.
    pub fn drain(&mut self) -> (all: Vec<(u64, T)>)
        requires
            old(self).wf(),
        ensures
            final(self).wf(),
            final(self).next() == old(self).next(),
            final(self)@ == Map::<u64, T>::empty(),
            ids_distinct(all@),
            forall|id: u64|
                #![trigger old(self)@.contains_key(id)]
                old(self)@.contains_key(id) <==> exists|i: int|
                    0 <= i < all@.len() && (#[trigger] all@[i]).0 == id,
            forall|i: int|
                0 <= i < all@.len() ==> old(self)@.contains_key((#[trigger] all@[i]).0)
                    && old(self)@[all@[i].0] == all@[i].1,
    {
        let mut all: Vec<(u64, T)> = Vec::new();
        std::mem::swap(&mut all, &mut self.waiting);
        proof {
            let w = all@;
            assert forall|id: u64|
                #![trigger old(self)@.contains_key(id)]
                old(self)@.contains_key(id) <==> exists|i: int|
                    0 <= i < all@.len() && (#[trigger] all@[i]).0 == id by {
                lemma_waiting_at(w, id);
            }
            assert forall|i: int| 0 <= i < all@.len() implies old(self)@.contains_key(
                (#[trigger] all@[i]).0,
            ) && old(self)@[all@[i].0] == all@[i].1 by {
                lemma_waiting_member(w, i);
            }
            assert(self@ =~= Map::<u64, T>::empty());
        }
        all
    }

    /// Delivers a JSON message of the broker.
    pub fn dispatch_json_message(&mut self, frame: JsonRpcFrame) -> (d: Delivery<T>)
        requires
            old(self).wf(),
        ensures
            final(self).wf(),
            final(self).next() == old(self).next(),
            match frame.id {
                Some(id) => {
                    &&& final(self)@ == old(self)@.remove(id)
                    &&& if old(self)@.contains_key(id) {
                        d matches Delivery::Reply { waiter, result } && waiter == old(self)@[id]
                            && reply_matches(frame, result)
                    } else {
                        d matches Delivery::Unmatched { id: other } && other == id
                    }
                },
                None => {
                    &&& final(self)@ == old(self)@
                    &&& match frame.method {
                        Some(m) => d matches Delivery::Notify(n) && n.method@ == m@ && n.params@
                            == json_or_null(frame.params),
                        None => d is Malformed,
                    }
                },
            },
    {
        match frame.id {
            Some(id) => match self.remove(id) {
                Some(waiter) => {
                    let result = match frame.error {
                        Some(err) => Err(
                            BridgeError::BrokerError {
                                code: err.code,
                                message: err.message,
                                data: err.data,
                            },
                        ),
                        None => Ok(
                            match frame.result {
                                Some(j) => j,
                                None => Json::Null,
                            },
                        ),
                    };
                    Delivery::Reply { waiter, result }
                },
                None => Delivery::Unmatched { id },
            },
            None => match frame.method {
                Some(method) => {
                    let params = match frame.params {
                        Some(p) => p,
                        None => Json::Null,
                    };
                    Delivery::Notify(BrokerNotification { method, params })
                },
                None => Delivery::Malformed,
            },
        }
    }
}

/// The notification of a binary message: its public JSON form, under the name that the
/// JSON notifications have.
pub fn dispatch_binary_message(line: &[u8]) -> (r: Result<BrokerNotification, BridgeError>)
    ensures
        match r {
            Ok(n) => n.method@ == "event/notify"@ && crate::vision_frame::binary_frame(line@)
                == Ok::<JsonView, Seq<char>>(n.params@),
            Err(BridgeError::Protocol(msg)) => crate::vision_frame::binary_frame(line@)
                == Err::<JsonView, Seq<char>>(msg@),
            Err(_) => false,
        },
{
    match crate::vision_frame::decode_binary_vision_frame(line) {
        Ok(params) => Ok(BrokerNotification { method: "event/notify".to_owned(), params }),
        Err(e) => Err(e),
    }
}

/// The error with which every waiting call fails when the broker closes the connection.
pub fn socket_closed() -> (e: BridgeError)
    ensures
        e matches BridgeError::BrokerUnavailable(msg) && msg@ == "socket closed"@,
{
    BridgeError::BrokerUnavailable("socket closed".to_owned())
}

/// Where the broker's socket is.
#[derive(Debug)]
pub enum SocketChoice {
    /// The path that the environment names.
    Named(String),
    /// `.one-for-all/broker.sock` below this home directory.
    UnderHome(String),
    NoHome,
}

/// Chooses the broker's socket: the environment goes before the home directory.
pub fn default_socket_path(named: Option<String>, home: Option<String>) -> (r: SocketChoice)
    ensures
        match named {
            Some(p) => r matches SocketChoice::Named(s) && s@ == p@,
            None => match home {
                Some(h) => r matches SocketChoice::UnderHome(s) && s@ == h@,
                None => r is NoHome,
            },
        },
{
    match named {
        Some(p) => SocketChoice::Named(p),
        None => match home {
            Some(h) => SocketChoice::UnderHome(h),
            None => SocketChoice::NoHome,
        },
    }
}

} // verus!
