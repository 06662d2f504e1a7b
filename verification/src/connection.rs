//! Namespace connections: the WebSocket address of a namespace, the
//! authentication handshake, the bookkeeping of remote procedure calls and
//! the routing of their replies.
use vstd::prelude::*;
use std::collections::HashMap;
use std::collections::HashSet;
use crate::error::{LMStudioError, Result};
use crate::json::{Json, JsonV, member, string_member};
use crate::text::{contains, contains_str, starts_with, starts_with_str, trim_prefix_all, trim_prefix_all_exec};
use crate::types::{opt_json, rpc_call_view, RpcCallMessage, WebSocketMessage, WebSocketMessageV};

verus! {

broadcast use vstd::std_specs::hash::group_hash_axioms;

/// The address text for a namespace: "wss" when the host starts with
/// "https://", else "ws"; then "://", the host without its leading
/// "http://" and "https://" (all repetitions, in that order), "/" and the
/// namespace.
pub open spec fn websocket_url_text(api_host: Seq<char>, namespace: Seq<char>) -> Seq<char> {
    let scheme = if starts_with(api_host, "https://"@) {
        "wss"@
    } else {
        "ws"@
    };
    let host = trim_prefix_all(trim_prefix_all(api_host, "http://"@), "https://"@);
    scheme + "://"@ + host + "/"@ + namespace
}

/// The serialization of the URL that `url::Url::parse` makes of a text, or
/// `None` when it refuses the text.
pub uninterp spec fn url_parse(input: Seq<char>) -> Option<Seq<char>>;

/// `url::Url::parse`, giving the parsed URL as its serialization
/// (`String::from(Url)`). Claimed: the result is `url_parse` of the input.
/// Which parse error comes out is not stated.
#[verifier::external_body]
fn parse_url(input: &str) -> (r: core::result::Result<String, url::ParseError>)
    ensures
        match r {
            Ok(u) => url_parse(input@) == Some(u@),
            Err(_) => url_parse(input@) is None,
        },
{
    match url::Url::parse(input) {
        Ok(u) => Ok(String::from(u)),
        Err(e) => Err(e),
    }
}

/// The address text for a namespace, before URL parsing.
pub fn websocket_url_text_exec(api_host: &str, namespace: &str) -> (s: String)
    ensures
        s@ == websocket_url_text(api_host@, namespace@),
{
    let mut s: String = if starts_with_str(api_host, "https://") {
        "wss".to_owned()
    } else {
        "ws".to_owned()
    };
    proof {
        reveal_strlit("http://");
        reveal_strlit("https://");
    }
    let without_http = trim_prefix_all_exec(api_host, "http://");
    let host = trim_prefix_all_exec(without_http.as_str(), "https://");
    s.append("://");
    s.append(host.as_str());
    s.append("/");
    s.append(namespace);
    s
}

/// The WebSocket URL given what URL parsing made of its text: the parsed
/// URL, or the parse error as a URL-parse error.
pub fn websocket_url_from_parse(parsed: core::result::Result<String, url::ParseError>) -> (r: Result<
    String,
>)
    ensures
        match parsed {
            Ok(u) => r matches Ok(v) && v@ == u@,
            Err(e) => r matches Err(LMStudioError::UrlParse(e2)) && e2 == e,
        },
{
    match parsed {
        Ok(u) => Ok(u),
        Err(e) => Err(LMStudioError::UrlParse(e)),
    }
}

/// The WebSocket URL of a namespace on an API host, as `url::Url` serializes it.
pub fn build_websocket_url(api_host: &str, namespace: &str) -> (r: Result<String>)
    ensures
        match r {
            Ok(u) => url_parse(websocket_url_text(api_host@, namespace@)) == Some(u@),
            Err(e) => e is UrlParse && url_parse(websocket_url_text(api_host@, namespace@)) is None,
        },
{
    let text = websocket_url_text_exec(api_host, namespace);
    websocket_url_from_parse(parse_url(text.as_str()))
}

/// The authentication message that opens a connection.
pub open spec fn auth_message_view(client_identifier: Seq<char>, client_passkey: Seq<char>) -> JsonV {
    JsonV::Object(
        seq![
            ("authVersion"@, JsonV::Int(1)),
            ("clientIdentifier"@, JsonV::Str(client_identifier)),
            ("clientPasskey"@, JsonV::Str(client_passkey)),
        ],
    )
}

/// The authentication message: version 1 with the client's identifier and passkey.
pub fn auth_message(client_identifier: &str, client_passkey: &str) -> (j: Json)
    ensures
        j@ == auth_message_view(client_identifier@, client_passkey@),
{
    let j = Json::object().with("authVersion", Json::integer(1)).with(
        "clientIdentifier",
        Json::string(client_identifier),
    ).with("clientPasskey", Json::string(client_passkey));
    assert(j@->Object_0 =~= auth_message_view(client_identifier@, client_passkey@)->Object_0);
    j
}

/// Lower-case hexadecimal digits.
pub open spec fn is_lower_hex(c: char) -> bool {
    ('0' <= c && c <= '9') || ('a' <= c && c <= 'f')
}

/// The hyphenated text of a version-4 UUID: 36 characters, hyphens at 8, 13,
/// 18 and 23, lower-case hex digits elsewhere, '4' at 14 and one of 8, 9, a,
/// b at 19.
pub open spec fn is_uuid_v4_text(s: Seq<char>) -> bool {
    &&& s.len() == 36
    &&& forall|i: int|
        0 <= i < 36 ==> if i == 8 || i == 13 || i == 18 || i == 23 {
            s[i] == '-'
        } else {
            is_lower_hex(#[trigger] s[i])
        }
    &&& s[14] == '4'
    &&& (s[19] == '8' || s[19] == '9' || s[19] == 'a' || s[19] == 'b')
}

/// `uuid::Uuid::new_v4().to_string()`: a fresh random UUID in hyphenated
/// lower-case form. Claimed: the text has that form (the uuid crate's
/// `new_v4` sets the version and variant bits; its `Display` writes the
/// hyphenated lower-case hex). Which UUID comes out is chance and not stated.
#[verifier::external_body]
fn new_uuid_v4_text() -> (s: String)
    ensures
        is_uuid_v4_text(s@),
{
    uuid::Uuid::new_v4().to_string()
}

/// Fresh random credentials for the handshake: (client identifier, passkey),
/// each a version-4 UUID in hyphenated lower-case form.
pub fn new_client_credentials() -> (r: (String, String))
    ensures
        is_uuid_v4_text(r.0@),
        is_uuid_v4_text(r.1@),
{
    let client_identifier = new_uuid_v4_text();
    let client_passkey = new_uuid_v4_text();
    (client_identifier, client_passkey)
}

/// The verdict on an authentication reply: accepted when its "success"
/// member is `true`; refused with "Authentication failed: <error>" when it is
/// `false` (the "error" member's text, or "Authentication failed" when there
/// is none); and "Invalid authentication response format" when "success" is
/// missing or not a boolean.
pub open spec fn auth_verdict(reply: JsonV) -> core::result::Result<(), Seq<char>> {
    match member(reply, "success"@) {
        Some(JsonV::Bool(true)) => Ok(()),
        Some(JsonV::Bool(false)) => Err(
            "Authentication failed: "@ + match string_member(reply, "error"@) {
                Some(e) => e,
                None => "Authentication failed"@,
            },
        ),
        _ => Err("Invalid authentication response format"@),
    }
}

/// Checks the server's reply to the authentication message.
pub fn check_auth_response(reply: &Json) -> (r: Result<()>)
    ensures
        match auth_verdict(reply@) {
            Ok(()) => r is Ok,
            Err(msg) => r matches Err(LMStudioError::Connection(m)) && m@ == msg,
        },
{
    let success = match reply.get("success") {
        Some(Json::Bool(b)) => Some(*b),
        _ => None,
    };
    match success {
        Some(true) => Ok(()),
        Some(false) => {
            let mut msg = "Authentication failed: ".to_owned();
            match reply.get("error") {
                Some(e) => match e.as_str() {
                    Some(text) => msg.append(text),
                    None => msg.append("Authentication failed"),
                },
                None => msg.append("Authentication failed"),
            }
            Err(LMStudioError::Connection(msg))
        },
        None => Err(LMStudioError::connection("Invalid authentication response format")),
    }
}

/// The model of the call bookkeeping: the next call id, the pending calls
/// with what each reply goes to, and the ids of pending unload calls.
pub struct RegistryModel<V> {
    pub next_id: int,
    pub calls: Map<i32, V>,
    pub unload_calls: Set<i32>,
}

/// Well-formed bookkeeping: ids start at 1 and every id in use is below the
/// next one.
pub open spec fn registry_wf<V>(m: RegistryModel<V>) -> bool {
    &&& 1 <= m.next_id <= i32::MAX
    &&& forall|id: i32| #[trigger] m.calls.contains_key(id) ==> 1 <= id < m.next_id
    &&& forall|id: i32| #[trigger] m.unload_calls.contains(id) ==> 1 <= id < m.next_id
}

/// The bookkeeping after registering a call to `endpoint` whose reply goes to
/// `sender`: it takes the next id, and is tracked as an unload call when the
/// endpoint's name contains "unload".
pub open spec fn after_register<V>(m: RegistryModel<V>, endpoint: Seq<char>, sender: V) -> RegistryModel<V> {
    let id = m.next_id as i32;
    RegistryModel {
        next_id: m.next_id + 1,
        calls: m.calls.insert(id, sender),
        unload_calls: if contains(endpoint, "unload"@) {
            m.unload_calls.insert(id)
        } else {
            m.unload_calls
        },
    }
}

/// The call id a message answers: its "callId" when its type is "rpcResult".
pub open spec fn rpc_result_id(msg: WebSocketMessageV) -> Option<i32> {
    if msg.message_type == Some("rpcResult"@) {
        msg.call_id
    } else {
        None
    }
}

/// Where the reply to call `id` goes, if the call is pending.
pub open spec fn reply_target<V>(m: RegistryModel<V>, id: i32) -> Option<V> {
    if m.calls.contains_key(id) {
        Some(m.calls[id])
    } else {
        None
    }
}

/// The bookkeeping after a message: a reply to a pending call ends the call;
/// its unload tracking ends too unless the reply is an error.
pub open spec fn after_message<V>(m: RegistryModel<V>, msg: WebSocketMessageV) -> RegistryModel<V> {
    match rpc_result_id(msg) {
        Some(id) => if m.calls.contains_key(id) {
            RegistryModel {
                next_id: m.next_id,
                calls: m.calls.remove(id),
                unload_calls: if msg.result is None && msg.error is Some {
                    m.unload_calls
                } else {
                    m.unload_calls.remove(id)
                },
            }
        } else {
            m
        },
        None => m,
    }
}

/// The message that makes the next call of `m` to `endpoint`: an "rpcCall"
/// carrying the id the call gets.
pub open spec fn call_message_view<V>(m: RegistryModel<V>, endpoint: Seq<char>, params: Option<JsonV>) -> JsonV {
    rpc_call_view(m.next_id as i32, endpoint, "rpcCall"@, params)
}

/// What becomes of an incoming message.
#[derive(Debug)]
pub enum Delivery<V> {
    /// Not a reply to a call.
    NotRpcResult,
    /// A reply to a call that is not pending.
    Unmatched(i32),
    /// A reply to pending call `id`: the payload goes to its receiver.
    Deliver(i32, V, Json),
    /// An error reply to pending call `id`; the call ends without a payload.
    Failed(i32, Json),
}

/// The bookkeeping of remote procedure calls on one connection.
pub struct CallRegistry<V> {
    next_id: i32,
    calls: HashMap<i32, V>,
    unload_calls: HashSet<i32>,
}

impl<V> View for CallRegistry<V> {
    type V = RegistryModel<V>;

    closed spec fn view(&self) -> RegistryModel<V> {
        RegistryModel { next_id: self.next_id as int, calls: self.calls@, unload_calls: self.unload_calls@ }
    }
}

impl<V> CallRegistry<V> {
    /// Empty bookkeeping whose first call id is 1.
    pub fn new() -> (r: CallRegistry<V>)
        ensures
            r@.next_id == 1,
            r@.calls == Map::<i32, V>::empty(),
            r@.unload_calls == Set::<i32>::empty(),
            registry_wf(r@),
    {
        CallRegistry { next_id: 1, calls: HashMap::new(), unload_calls: HashSet::new() }
    }

    /// Whether another call can get an id (ids are positive `i32`s).
    pub fn can_register(&self) -> (b: bool)
        ensures
            b == (self@.next_id < i32::MAX),
    {
        self.next_id < i32::MAX
    }

    /// Registers a call to `endpoint` whose reply goes to `sender`, and
    /// returns its id.
    pub fn register(&mut self, endpoint: &str, sender: V) -> (id: i32)
        requires
            registry_wf(old(self)@),
            old(self)@.next_id < i32::MAX,
        ensures
            id == old(self)@.next_id,
            !old(self)@.calls.contains_key(id),
            final(self)@ == after_register(old(self)@, endpoint@, sender),
            registry_wf(final(self)@),
    {
        let id = self.next_id;
        self.next_id = id + 1;
        self.calls.insert(id, sender);
        if contains_str(endpoint, "unload") {
            self.unload_calls.insert(id);
        }
        proof {
            assert(self@.calls =~= after_register(old(self)@, endpoint@, sender).calls);
            assert(self@.unload_calls =~= after_register(old(self)@, endpoint@, sender).unload_calls);
        }
        id
    }

    /// Starts a call: registers it (see [`CallRegistry::register`]) and
    /// returns its id with the message that makes the call, which carries
    /// that id.
    pub fn start_call(&mut self, endpoint: &str, params: Option<Json>, sender: V) -> (r: (i32, Json))
        requires
            registry_wf(old(self)@),
            old(self)@.next_id < i32::MAX,
        ensures
            r.0 == old(self)@.next_id,
            r.1@ == call_message_view(old(self)@, endpoint@, opt_json(params)),
            final(self)@ == after_register(old(self)@, endpoint@, sender),
            registry_wf(final(self)@),
    {
        let id = self.register(endpoint, sender);
        let message = RpcCallMessage::new(id, endpoint, params).to_json();
        (id, message)
    }

    /// Whether call `id` is a pending unload call.
    pub fn is_unload_call(&self, id: i32) -> (b: bool)
        ensures
            b == self@.unload_calls.contains(id),
    {
        self.unload_calls.contains(&id)
    }

    /// Routes an incoming message: a reply to a pending call ends the call and
    /// hands back its receiver with the reply's result (or null when it has
    /// neither result nor error), or the error when it has only an error.
    pub fn on_message(&mut self, msg: WebSocketMessage) -> (r: Delivery<V>)
        requires
            registry_wf(old(self)@),
        ensures
            final(self)@ == after_message(old(self)@, msg@),
            registry_wf(final(self)@),
            match rpc_result_id(msg@) {
                None => r is NotRpcResult,
                Some(id) => match reply_target(old(self)@, id) {
                    None => r == Delivery::<V>::Unmatched(id),
                    Some(s) => match msg@.result {
                        Some(res) => r matches Delivery::Deliver(rid, rs, p) && rid == id && rs
                            == s && p@ == res,
                        None => match msg@.error {
                            Some(err) => r matches Delivery::Failed(rid, p) && rid == id && p@
                                == err,
                            None => r matches Delivery::Deliver(rid, rs, p) && rid == id && rs
                                == s && p@ == JsonV::Null,
                        },
                    },
                },
            },
    {
        let is_result = match &msg.message_type {
            Some(t) => crate::text::str_eq(t.as_str(), "rpcResult"),
            None => false,
        };
        if !is_result {
            return Delivery::NotRpcResult;
        }
        let id = match msg.call_id {
            Some(id) => id,
            None => {
                return Delivery::NotRpcResult;
            },
        };
        if !self.calls.contains_key(&id) {
            return Delivery::Unmatched(id);
        }
        let sender = match self.calls.remove(&id) {
            Some(s) => s,
            None => {
                return Delivery::Unmatched(id);
            },
        };
        match msg.result {
            Some(res) => {
                self.unload_calls.remove(&id);
                Delivery::Deliver(id, sender, res)
            },
            None => match msg.error {
                Some(err) => Delivery::Failed(id, err),
                None => {
                    self.unload_calls.remove(&id);
                    Delivery::Deliver(id, sender, Json::Null)
                },
            },
        }
    }
}

/// A reply to the call just registered reaches the sender it was registered
/// with, and ends that call.
pub proof fn lemma_reply_reaches_its_caller<V>(
    m: RegistryModel<V>,
    endpoint: Seq<char>,
    sender: V,
    msg: WebSocketMessageV,
)
    requires
        registry_wf(m),
        m.next_id < i32::MAX,
        rpc_result_id(msg) == Some(m.next_id as i32),
    ensures
        reply_target(after_register(m, endpoint, sender), rpc_result_id(msg)->0) == Some(sender),
        reply_target(after_message(after_register(m, endpoint, sender), msg), rpc_result_id(msg)->0)
            is None,
{
}

/// Registering a call leaves every other pending call and where its reply
/// goes as it was.
pub proof fn lemma_register_keeps_other_calls<V>(
    m: RegistryModel<V>,
    endpoint: Seq<char>,
    sender: V,
    id: i32,
)
    requires
        registry_wf(m),
        m.next_id < i32::MAX,
        reply_target(m, id) is Some,
    ensures
        reply_target(after_register(m, endpoint, sender), id) == reply_target(m, id),
{
}

/// A reply to one call leaves every other pending call and where its reply
/// goes as it was.
pub proof fn lemma_reply_keeps_other_calls<V>(m: RegistryModel<V>, msg: WebSocketMessageV, id: i32)
    requires
        registry_wf(m),
        rpc_result_id(msg) != Some(id),
    ensures
        reply_target(after_message(m, msg), id) == reply_target(m, id),
{
}

/// A call gets at most one reply: once a reply to a pending call has been
/// routed, a second reply to the same id finds no pending call.
pub proof fn lemma_reply_delivered_once<V>(m: RegistryModel<V>, msg: WebSocketMessageV)
    requires
        registry_wf(m),
        rpc_result_id(msg) is Some,
    ensures
        reply_target(after_message(m, msg), rpc_result_id(msg)->0) is None,
{
}

/// Ids are never reused: the id a call gets is not pending, and ids only grow.
pub proof fn lemma_ids_are_fresh<V>(m: RegistryModel<V>, endpoint: Seq<char>, sender: V)
    requires
        registry_wf(m),
        m.next_id < i32::MAX,
    ensures
        !m.calls.contains_key(m.next_id as i32),
        after_register(m, endpoint, sender).next_id == m.next_id + 1,
        registry_wf(after_register(m, endpoint, sender)),
{
}

/// Fresh bookkeeping, as [`CallRegistry::new`] makes it.
pub open spec fn empty_registry<V>() -> RegistryModel<V> {
    RegistryModel { next_id: 1, calls: Map::empty(), unload_calls: Set::empty() }
}

/// The bookkeeping after registering calls to `endpoints[0]`,
/// `endpoints[1]`, ... in turn, the reply to the i-th going to `senders[i]`.
pub open spec fn after_registers<V>(
    m: RegistryModel<V>,
    endpoints: Seq<Seq<char>>,
    senders: Seq<V>,
) -> RegistryModel<V>
    decreases endpoints.len(),
{
    if endpoints.len() == 0 {
        m
    } else {
        after_register(
            after_registers(m, endpoints.drop_last(), senders.drop_last()),
            endpoints.last(),
            senders.last(),
        )
    }
}

/// Calls are numbered 1, 2, 3, ... in the order they are registered: on
/// fresh bookkeeping, the i-th registration (counting from 0) finds next id
/// i + 1 and so gets id i + 1; after k registrations the pending calls are
/// exactly ids 1 to k, the reply to id i + 1 goes to the i-th sender, id
/// i + 1 is tracked as an unload call exactly when the i-th endpoint's name
/// contains "unload", and the next call gets id k + 1.
pub proof fn lemma_calls_are_numbered_in_order<V>(endpoints: Seq<Seq<char>>, senders: Seq<V>)
    requires
        endpoints.len() == senders.len(),
        endpoints.len() < i32::MAX,
    ensures
        registry_wf(after_registers(empty_registry(), endpoints, senders)),
        after_registers(empty_registry(), endpoints, senders).next_id == endpoints.len() + 1,
        forall|i: int|
            0 <= i < endpoints.len() ==> (#[trigger] after_registers(
                empty_registry(),
                endpoints.take(i),
                senders.take(i),
            )).next_id == i + 1,
        forall|i: int|
            #![trigger senders[i]]
            0 <= i < endpoints.len() ==> reply_target(
                after_registers(empty_registry(), endpoints, senders),
                (i + 1) as i32,
            ) == Some(senders[i]),
        forall|i: int|
            #![trigger endpoints[i]]
            0 <= i < endpoints.len() ==> (after_registers(
                empty_registry(),
                endpoints,
                senders,
            ).unload_calls.contains((i + 1) as i32) <==> contains(endpoints[i], "unload"@)),
        forall|id: i32|
            #[trigger] after_registers(empty_registry(), endpoints, senders).calls.contains_key(id)
                <==> 1 <= id <= endpoints.len(),
    decreases endpoints.len(),
{
    let empty = empty_registry::<V>();
    if endpoints.len() == 0 {
        assert(after_registers(empty, endpoints, senders) == empty);
    } else {
        let k = endpoints.len() - 1;
        let e2 = endpoints.drop_last();
        let s2 = senders.drop_last();
        lemma_calls_are_numbered_in_order(e2, s2);
        let prev = after_registers(empty, e2, s2);
        let last = after_registers(empty, endpoints, senders);
        assert(last == after_register(prev, endpoints.last(), senders.last()));
        assert(prev.next_id == k + 1);
        assert forall|i: int| 0 <= i < endpoints.len() implies (#[trigger] after_registers(
            empty,
            endpoints.take(i),
            senders.take(i),
        )).next_id == i + 1 by {
            if i < k {
                assert(endpoints.take(i) =~= e2.take(i));
                assert(senders.take(i) =~= s2.take(i));
            } else {
                assert(endpoints.take(i) =~= e2);
                assert(senders.take(i) =~= s2);
            }
        }
        assert forall|i: int|
            #![trigger senders[i]]
            0 <= i < endpoints.len() implies reply_target(last, (i + 1) as i32) == Some(senders[i]) by {
            if i < k {
                assert(s2[i] == senders[i]);
                assert(reply_target(prev, (i + 1) as i32) == Some(s2[i]));
            }
        }
        assert forall|i: int|
            #![trigger endpoints[i]]
            0 <= i < endpoints.len() implies (last.unload_calls.contains((i + 1) as i32)
                <==> contains(endpoints[i], "unload"@)) by {
            if i < k {
                assert(e2[i] == endpoints[i]);
                assert(prev.unload_calls.contains((i + 1) as i32) <==> contains(e2[i], "unload"@));
            }
        }
        assert forall|id: i32| #[trigger] last.calls.contains_key(id) <==> 1 <= id <= endpoints.len() by {
            assert(prev.calls.contains_key(id) <==> 1 <= id <= k);
        }
    }
}

/// Calls made one after another on fresh bookkeeping send "rpcCall"
/// messages numbered 1, 2, 3, ...: the i-th call (from 0) sends callId i + 1
/// with its endpoint, and "params" exactly when it has parameters; and the
/// reply with callId i + 1 goes to the i-th caller.
pub proof fn lemma_call_messages_are_numbered<V>(
    endpoints: Seq<Seq<char>>,
    params: Seq<Option<JsonV>>,
    senders: Seq<V>,
)
    requires
        endpoints.len() == senders.len(),
        params.len() == endpoints.len(),
        endpoints.len() < i32::MAX,
    ensures
        forall|i: int|
            #![trigger params[i]]
            0 <= i < endpoints.len() ==> call_message_view(
                after_registers(empty_registry(), endpoints.take(i), senders.take(i)),
                endpoints[i],
                params[i],
            ) == rpc_call_view((i + 1) as i32, endpoints[i], "rpcCall"@, params[i]),
        forall|i: int|
            #![trigger senders[i]]
            0 <= i < endpoints.len() ==> reply_target(
                after_registers(empty_registry(), endpoints, senders),
                (i + 1) as i32,
            ) == Some(senders[i]),
{
    lemma_calls_are_numbered_in_order(endpoints, senders);
    assert forall|i: int|
        #![trigger params[i]]
        0 <= i < endpoints.len() implies call_message_view(
            after_registers(empty_registry(), endpoints.take(i), senders.take(i)),
            endpoints[i],
            params[i],
        ) == rpc_call_view((i + 1) as i32, endpoints[i], "rpcCall"@, params[i]) by {
        assert(after_registers(empty_registry::<V>(), endpoints.take(i), senders.take(i)).next_id == i + 1);
    }
}

/// The result of a call from what its wait ended with: `None` when no reply
/// came in time ("Request timeout"), `Some(None)` when the call ended without
/// a payload ("No response received"), `Some(Some(v))` for the payload `v`.
pub fn remote_call_outcome(reply: Option<Option<Json>>) -> (r: Result<Json>)
    ensures
        match reply {
            None => r matches Err(LMStudioError::RemoteCallFailed(m)) && m@ == "Request timeout"@,
            Some(None) => r matches Err(LMStudioError::RemoteCallFailed(m)) && m@ == "No response received"@,
            Some(Some(v)) => r matches Ok(w) && w@ == v@,
        },
{
    match reply {
        None => Err(LMStudioError::remote_call_failed("Request timeout")),
        Some(None) => Err(LMStudioError::remote_call_failed("No response received")),
        Some(Some(v)) => Ok(v),
    }
}

/// A receiver of the messages of one open channel.
pub trait ChannelHandler: Send + Sync {
    /// Takes one message of the channel.
    fn handle_message(&self, message: &Json);
}

/// The channel a message belongs to: its "channelId" when that is an integer
/// in the range of channel ids.
pub open spec fn channel_message_id_view(message: JsonV) -> Option<i32> {
    match member(message, "channelId"@) {
        Some(JsonV::Int(i)) => if i32::MIN <= i <= i32::MAX {
            Some(i as i32)
        } else {
            None
        },
        _ => None,
    }
}

/// The channel a message belongs to, if any (see [`channel_message_id_view`]).
pub fn channel_message_id(message: &Json) -> (r: Option<i32>)
    ensures
        r == channel_message_id_view(message@),
{
    match message.get("channelId") {
        Some(Json::Int(i)) => if i32::MIN as i64 <= *i && *i <= i32::MAX as i64 {
            Some(*i as i32)
        } else {
            None
        },
        _ => None,
    }
}

/// The error for a call made while the connection is down.
pub fn ensure_connected(connected: bool) -> (r: Result<()>)
    ensures
        connected ==> r is Ok,
        !connected ==> (r matches Err(LMStudioError::Connection(m)) && m@
            == "Not connected to WebSocket"@),
{
    if !connected {
        return Err(LMStudioError::connection("Not connected to WebSocket"));
    }
    Ok(())
}

} // verus!
