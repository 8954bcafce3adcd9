//! The JSON-RPC protocol of the Codex app-server: the messages the overlay sends, the
//! routing of each message it receives, and the table of requests awaiting a response.

use vstd::prelude::*;
use std::collections::HashMap;
use vstd::std_specs::iter::IteratorSpec;
use crate::json::{JsonValue, JsonNumber, json_parse, json_encoding, parse_json, encode_json, json_get, entries_get, entries_get_from, str_of, u64_of, str_of_exec, u64_of_exec};

verus! {

broadcast use vstd::std_specs::hash::group_hash_axioms;

/// A message received from the app-server, routed.
#[derive(Debug)]
pub enum RpcRoute {
    /// The response to request `id`: its result, or the message of its error.
    Response { id: u64, result: Result<JsonValue, String> },
    /// A notification.
    Notification { method: String, params: JsonValue },
    /// Neither a response nor a notification.
    Ignored,
}

/// An event of the connection, forwarded to the supervisor.
#[derive(Debug)]
pub enum RpcEvent {
    Notification { method: String, params: JsonValue },
    Exited,
}

/// The value of `v` under `key`, `null` when absent.
pub open spec fn field_or_null(v: JsonValue, key: Seq<char>) -> JsonValue {
    match json_get(v, key) {
        Some(x) => x,
        None => JsonValue::Null,
    }
}

/// The message of an error object, or a generic text.
pub open spec fn error_message(error: JsonValue) -> Seq<char> {
    match str_of(json_get(error, "message"@)) {
        Some(m) => m,
        None => "Codex request failed"@,
    }
}

/// The route of a message: a response when it has an unsigned integer `id` (an error when it
/// has an `error` member, whose `message` alone is kept), else a notification when it has a
/// string `method`, else ignored.
pub open spec fn route_matches(m: JsonValue, r: RpcRoute) -> bool {
    match u64_of(json_get(m, "id"@)) {
        Some(id) => match r {
            RpcRoute::Response { id: rid, result } => rid == id && match json_get(m, "error"@) {
                Some(e) => match result {
                    Err(text) => text@ == error_message(e),
                    Ok(_) => false,
                },
                None => result == Ok::<JsonValue, String>(field_or_null(m, "result"@)),
            },
            _ => false,
        },
        None => match str_of(json_get(m, "method"@)) {
            Some(method) => match r {
                RpcRoute::Notification { method: rm, params } => rm@ == method && params == field_or_null(m, "params"@),
                _ => false,
            },
            None => r is Ignored,
        },
    }
}

/// Removes the first entry with key `key` and returns its value, or `null` when there is none.
fn take_member(entries: &mut Vec<(String, JsonValue)>, key: &str) -> (v: JsonValue)
    ensures
        v == match entries_get(old(entries)@, key@) {
            Some(x) => x,
            None => JsonValue::Null,
        },
{
    let wanted = String::from_str(key);
    let mut i: usize = 0;
    while i < entries.len()
        invariant
            i <= entries.len(),
            wanted@ == key@,
            entries@ == old(entries)@,
            entries_get(entries@, key@) == entries_get_from(entries@, key@, i as int),
        decreases entries.len() - i,
    {
        if entries[i].0 == wanted {
            assert(entries_get_from(entries@, key@, i as int) == Some(entries@[i as int].1));
            let (_, value) = entries.remove(i);
            return value;
        }
        i = i + 1;
    }
    JsonValue::Null
}

/// Routes one message received from the app-server.
pub fn route_message(message: JsonValue) -> (r: RpcRoute)
    ensures
        route_matches(message, r),
{
    let id = u64_of_exec(message.get("id"));
    match id {
        Some(id) => {
            let error_text: Option<String> = match message.get("error") {
                Some(error) => Some(
                    match str_of_exec(error.get("message")) {
                        Some(m) => m.clone(),
                        None => String::from_str("Codex request failed"),
                    },
                ),
                None => None,
            };
            match error_text {
                Some(text) => RpcRoute::Response { id: id, result: Err(text) },
                None => {
                    let ghost m = message;
                    match message {
                        JsonValue::Object(mut entries) => {
                            let result = take_member(&mut entries, "result");
                            RpcRoute::Response { id: id, result: Ok(result) }
                        },
                        _ => RpcRoute::Response { id: id, result: Ok(JsonValue::Null) },
                    }
                },
            }
        },
        None => {
            let method: Option<String> = match str_of_exec(message.get("method")) {
                Some(m) => Some(m.clone()),
                None => None,
            };
            match method {
                Some(method) => match message {
                    JsonValue::Object(mut entries) => {
                        let params = take_member(&mut entries, "params");
                        RpcRoute::Notification { method: method, params: params }
                    },
                    _ => RpcRoute::Notification { method: method, params: JsonValue::Null },
                },
                None => RpcRoute::Ignored,
            }
        },
    }
}

/// The number of members of an object (zero for other values).
pub open spec fn member_count(v: JsonValue) -> nat {
    match v {
        JsonValue::Object(entries) => entries@.len(),
        _ => 0,
    }
}

/// A boolean member.
pub open spec fn has_bool(v: JsonValue, key: Seq<char>, b: bool) -> bool {
    json_get(v, key) == Some(JsonValue::Bool(b))
}

/// A string member.
pub open spec fn has_str(v: JsonValue, key: Seq<char>, s: Seq<char>) -> bool {
    str_of(json_get(v, key)) == Some(s)
}

fn key(s: &str) -> (k: String)
    ensures
        k@ == s@,
{
    String::from_str(s)
}

/// A request: `{"id": id, "method": method}` plus `"params"` when given.
pub fn request_message(method: &str, id: u64, params: Option<JsonValue>) -> (m: JsonValue)
    ensures
        json_get(m, "id"@) == Some(JsonValue::Number(JsonNumber::PosInt(id))),
        has_str(m, "method"@, method@),
        json_get(m, "params"@) == params,
        member_count(m) == if params is Some { 3nat } else { 2nat },
{
    proof {
        reveal_with_fuel(entries_get_from, 4);
        reveal_strlit("id");
        reveal_strlit("method");
        reveal_strlit("params");
    }
    let mut entries: Vec<(String, JsonValue)> = Vec::new();
    entries.push((key("id"), JsonValue::Number(JsonNumber::PosInt(id))));
    entries.push((key("method"), JsonValue::String(String::from_str(method))));
    let ghost e0 = entries@;
    assert("method"@[0] == 'm' && "params"@[0] == 'p');
    assert(e0[0].0@ != "method"@ && e0[0].0@ != "params"@);
    assert(e0[1].0@ == "method"@ && e0[1].0@ != "params"@);
    assert(entries_get(e0, "method"@) == Some(e0[1].1));
    match params {
        Some(p) => entries.push((key("params"), p)),
        None => {},
    }
    let ghost e = entries@;
    assert(e[1] == e0[1]);
    assert(entries_get(e, "method"@) == Some(e[1].1));
    assert(entries_get(e, "params"@) == entries_get_from(e, "params"@, 2));
    JsonValue::Object(entries)
}

/// A notification: `{"method": method}` plus `"params"` when given.
pub fn notification_message(method: &str, params: Option<JsonValue>) -> (m: JsonValue)
    ensures
        json_get(m, "id"@) is None,
        has_str(m, "method"@, method@),
        json_get(m, "params"@) == params,
        member_count(m) == if params is Some { 2nat } else { 1nat },
{
    proof {
        reveal_with_fuel(entries_get_from, 4);
        reveal_strlit("id");
        reveal_strlit("method");
        reveal_strlit("params");
    }
    let mut entries: Vec<(String, JsonValue)> = Vec::new();
    entries.push((key("method"), JsonValue::String(String::from_str(method))));
    assert("method"@[0] == 'm' && "params"@[0] == 'p');
    match params {
        Some(p) => entries.push((key("params"), p)),
        None => {},
    }
    let ghost e = entries@;
    assert(e[0].0@ == "method"@ && e[0].0@ != "params"@ && e[0].0@ != "id"@);
    assert(entries_get(e, "method"@) == Some(e[0].1));
    assert(entries_get(e, "params"@) == entries_get_from(e, "params"@, 1));
    assert(entries_get(e, "id"@) == entries_get_from(e, "id"@, 1));
    JsonValue::Object(entries)
}

/// The parameters of `initialize`: the client's name, title and version, and no
/// experimental API or request attestation.
pub fn initialize_params(version: &str) -> (p: JsonValue)
    ensures
        member_count(p) == 2,
        match json_get(p, "clientInfo"@) {
            Some(info) => member_count(info) == 3 && has_str(info, "name"@, "codex_usage_overlay"@)
                && has_str(info, "title"@, "Codex Tracker"@) && has_str(info, "version"@, version@),
            None => false,
        },
        match json_get(p, "capabilities"@) {
            Some(c) => member_count(c) == 2 && has_bool(c, "experimentalApi"@, false)
                && has_bool(c, "requestAttestation"@, false),
            None => false,
        },
{
    proof {
        reveal_with_fuel(entries_get_from, 4);
        reveal_strlit("clientInfo");
        reveal_strlit("capabilities");
        reveal_strlit("name");
        reveal_strlit("title");
        reveal_strlit("version");
        reveal_strlit("experimentalApi");
        reveal_strlit("requestAttestation");
    }
    let mut capabilities: Vec<(String, JsonValue)> = Vec::new();
    capabilities.push((key("experimentalApi"), JsonValue::Bool(false)));
    capabilities.push((key("requestAttestation"), JsonValue::Bool(false)));
    let mut info: Vec<(String, JsonValue)> = Vec::new();
    info.push((key("name"), JsonValue::String(String::from_str("codex_usage_overlay"))));
    info.push((key("title"), JsonValue::String(String::from_str("Codex Tracker"))));
    info.push((key("version"), JsonValue::String(String::from_str(version))));
    let mut entries: Vec<(String, JsonValue)> = Vec::new();
    entries.push((key("capabilities"), JsonValue::Object(capabilities)));
    entries.push((key("clientInfo"), JsonValue::Object(info)));
    let ghost e = entries@;
    assert("capabilities"@[1] == 'a' && "clientInfo"@[1] == 'l');
    assert(e[0].0@ != "clientInfo"@ && e[1].0@ == "clientInfo"@);
    assert(entries_get(e, "clientInfo"@) == Some(e[1].1));
    let ghost f = e[1].1->Object_0@;
    assert(f[0].0@ == "name"@ && f[1].0@ == "title"@ && f[2].0@ == "version"@);
    assert("name"@[0] == 'n' && "title"@[0] == 't' && "version"@[0] == 'v');
    assert(f[0].0@ != "title"@ && f[0].0@ != "version"@ && f[1].0@ != "version"@);
    assert(entries_get(f, "name"@) == Some(f[0].1));
    assert(entries_get(f, "title"@) == Some(f[1].1));
    assert(entries_get(f, "version"@) == Some(f[2].1));
    assert(entries_get(e, "capabilities"@) == Some(e[0].1));
    let ghost c = e[0].1->Object_0@;
    assert("experimentalApi"@[0] == 'e' && "requestAttestation"@[0] == 'r');
    assert(c[0].0@ == "experimentalApi"@ && c[1].0@ == "requestAttestation"@ && c[0].0@ != "requestAttestation"@);
    assert(entries_get(c, "experimentalApi"@) == Some(c[0].1));
    assert(entries_get(c, "requestAttestation"@) == Some(c[1].1));
    JsonValue::Object(entries)
}

/// The parameters of `account/read`: do not refresh the token.
pub fn account_read_params() -> (p: JsonValue)
    ensures
        member_count(p) == 1,
        has_bool(p, "refreshToken"@, false),
{
    let mut entries: Vec<(String, JsonValue)> = Vec::new();
    entries.push((key("refreshToken"), JsonValue::Bool(false)));
    JsonValue::Object(entries)
}

/// The parameters of `account/login/start`: a streamlined ChatGPT sign-in with the hosted
/// success page.
pub fn login_start_params() -> (p: JsonValue)
    ensures
        member_count(p) == 3,
        has_str(p, "type"@, "chatgpt"@),
        has_bool(p, "codexStreamlinedLogin"@, true),
        has_bool(p, "useHostedLoginSuccessPage"@, true),
{
    proof {
        reveal_with_fuel(entries_get_from, 4);
        reveal_strlit("type");
        reveal_strlit("codexStreamlinedLogin");
        reveal_strlit("useHostedLoginSuccessPage");
    }
    let mut entries: Vec<(String, JsonValue)> = Vec::new();
    entries.push((key("codexStreamlinedLogin"), JsonValue::Bool(true)));
    entries.push((key("type"), JsonValue::String(String::from_str("chatgpt"))));
    entries.push((key("useHostedLoginSuccessPage"), JsonValue::Bool(true)));
    let ghost e = entries@;
    assert(e[0].0@ == "codexStreamlinedLogin"@);
    assert(e[0].0@ != "type"@);
    assert(e[1].0@ == "type"@);
    assert(entries_get_from(e, "type"@, 1) == Some(e[1].1));
    assert(entries_get(e, "type"@) == Some(e[1].1));
    JsonValue::Object(entries)
}

/// Frames an encoded message for the app-server's stdin: messages are separated by a
/// newline.
pub fn frame_line(encoded: Vec<u8>) -> (line: Vec<u8>)
    ensures
        line@ == encoded@.push(0x0Au8),
{
    let mut line = encoded;
    line.push(0x0A);
    line
}

/// How long a request waits for its response, in seconds.
pub const REQUEST_TIMEOUT_SECS: u64 = 15;

/// Why a request got no response.
#[derive(Debug, PartialEq, Eq)]
pub enum RequestFailure {
    /// The connection to the app-server is closed.
    NotConnected,
    /// The request was dropped before its response arrived.
    Cancelled,
    /// No response arrived within `REQUEST_TIMEOUT_SECS`.
    TimedOut,
}

/// The error of a request to `method` that got no response.
pub fn request_failure_message(method: &str, failure: RequestFailure) -> (m: String)
    ensures
        m@ == match failure {
            RequestFailure::NotConnected => "Codex app-server is not connected"@,
            RequestFailure::Cancelled => "Codex request "@ + method@ + " was cancelled"@,
            RequestFailure::TimedOut => "Codex request "@ + method@ + " timed out"@,
        },
{
    match failure {
        RequestFailure::NotConnected => String::from_str("Codex app-server is not connected"),
        RequestFailure::Cancelled => {
            let mut m = String::from_str("Codex request ");
            m.append(method);
            m.append(" was cancelled");
            m
        },
        RequestFailure::TimedOut => {
            let mut m = String::from_str("Codex request ");
            m.append(method);
            m.append(" timed out");
            m
        },
    }
}

/// Decodes one line received from the app-server: parses it as JSON and routes it. A line
/// that is not JSON is refused with the parser's message.
pub fn decode_message(line: &str) -> (r: Result<RpcRoute, String>)
    ensures
        match json_parse(line@) {
            Ok(v) => r matches Ok(route) && route_matches(v, route),
            Err(e) => r matches Err(m) && m@ == "Invalid Codex JSON-RPC message: "@ + e,
        },
{
    match parse_json(line) {
        Ok(v) => Ok(route_message(v)),
        Err(e) => {
            let mut m = String::from_str("Invalid Codex JSON-RPC message: ");
            m.append(e.as_str());
            Err(m)
        },
    }
}

/// Encodes a message as one line for the app-server's stdin: its compact JSON followed by a
/// newline.
pub fn encode_message(message: &JsonValue) -> (r: Result<Vec<u8>, String>)
    ensures
        match json_encoding(*message) {
            Ok(b) => r matches Ok(line) && line@ == b.push(0x0Au8),
            Err(e) => r matches Err(m) && m@ == "Could not encode Codex request: "@ + e,
        },
{
    match encode_json(message) {
        Ok(bytes) => Ok(frame_line(bytes)),
        Err(e) => {
            let mut m = String::from_str("Could not encode Codex request: ");
            m.append(e.as_str());
            Err(m)
        },
    }
}

/// Requests awaiting their response, each with the value that receives it, and the id of
/// the next request.
pub struct PendingRequests<S> {
    waiting: HashMap<u64, S>,
    next_id: u64,
}

impl<S> PendingRequests<S> {
    /// The waiting requests by id.
    pub closed spec fn waiting_map(self) -> Map<u64, S> {
        self.waiting@
    }

    /// The id the next request gets.
    pub closed spec fn next(self) -> u64 {
        self.next_id
    }

    /// Every waiting id is below the next id.
    pub open spec fn ids_fresh(self) -> bool {
        forall|id: u64| #[trigger] self.waiting_map().contains_key(id) ==> id < self.next()
    }

    /// No request is waiting; ids start at 1.
    pub fn new() -> (p: Self)
        ensures
            p.waiting_map() == Map::<u64, S>::empty(),
            p.next() == 1,
            p.ids_fresh(),
    {
        PendingRequests { waiting: HashMap::new(), next_id: 1 }
    }

    /// Registers a request: it gets the next id, and the id after it is one higher (wrapping).
    pub fn register(&mut self, receiver: S) -> (id: u64)
        ensures
            id == old(self).next(),
            final(self).waiting_map() == old(self).waiting_map().insert(id, receiver),
            final(self).next() == (if old(self).next() == u64::MAX { 0 } else { (old(self).next() + 1) as u64 }),
            old(self).ids_fresh() && old(self).next() < u64::MAX ==> !old(self).waiting_map().contains_key(id)
                && final(self).ids_fresh(),
            table_step(*old(self), *final(self), Some(id)),
    {
        let id = self.next_id;
        self.next_id = if id == u64::MAX { 0 } else { id + 1 };
        self.waiting.insert(id, receiver);
        id
    }

    /// Takes the receiver of request `id`, if it is still waiting; afterwards it is not.
    pub fn take(&mut self, id: u64) -> (r: Option<S>)
        ensures
            final(self).waiting_map() == old(self).waiting_map().remove(id),
            final(self).next() == old(self).next(),
            match r {
                Some(v) => old(self).waiting_map().contains_key(id) && v == old(self).waiting_map()[id],
                None => !old(self).waiting_map().contains_key(id),
            },
            old(self).ids_fresh() ==> final(self).ids_fresh(),
            table_step(*old(self), *final(self), None),
    {
        self.waiting.remove(&id)
    }

    /// Takes every waiting receiver; afterwards none is waiting. Each waiting request's
    /// receiver is returned exactly once.
    pub fn drain(&mut self) -> (r: Vec<S>)
        ensures
            final(self).waiting_map() == Map::<u64, S>::empty(),
            final(self).next() == old(self).next(),
            final(self).ids_fresh(),
            table_step(*old(self), *final(self), None),
            exists|ids: Seq<u64>| {
                &&& ids.no_duplicates()
                &&& ids.len() == r@.len()
                &&& forall|id: u64| #[trigger] ids.contains(id) <==> old(self).waiting_map().contains_key(id)
                &&& forall|k: int| 0 <= k < ids.len() ==> r@[k] == old(self).waiting_map()[#[trigger] ids[k]]
            },
    {
        let ghost old_map = self.waiting@;
        let mut ids: Vec<u64> = Vec::new();
        let keys = self.waiting.keys();
        assert(keys == vstd::std_specs::hash::spec_keys_iter(&self.waiting));
        assert(keys.remaining().unref().to_set() == old_map.dom());
        let ghost kr = keys.remaining();
        for k in it: keys
            invariant
                it.seq() == kr,
                ids@ == it.seq().take(it.index() as int).unref(),
                ids@.len() == it.index(),
        {
            ids.push(*k);
        }
        assert(ids@.len() == kr.len());
        assert(ids@ =~= kr.unref());
        assert(ids@.no_duplicates());
        assert(ids@.to_set() == old_map.dom());
        let ghost id_seq = ids@;
        assert(id_seq.subrange(0, id_seq.len() as int) =~= id_seq);
        assert forall|id: u64| #[trigger] self.waiting@.contains_key(id) implies id_seq.subrange(0, id_seq.len() as int).contains(id) by {
            assert(id_seq.to_set().contains(id));
        }
        let mut out: Vec<S> = Vec::new();
        let mut i: usize = 0;
        while i < ids.len()
            invariant
                i <= ids.len(),
                ids@ == id_seq,
                id_seq.no_duplicates(),
                id_seq.to_set() == old_map.dom(),
                out@.len() == i,
                forall|k: int| 0 <= k < i ==> out@[k] == old_map[#[trigger] id_seq[k]],
                forall|k: int| i <= k < id_seq.len() ==> self.waiting@.contains_key(#[trigger] id_seq[k]) && self.waiting@[id_seq[k]] == old_map[id_seq[k]],
                forall|id: u64| #[trigger] self.waiting@.contains_key(id) ==> id_seq.subrange(i as int, id_seq.len() as int).contains(id),
                self.next_id == old(self).next_id,
            decreases ids.len() - i,
        {
            let id = ids[i];
            let ghost before = self.waiting@;
            let taken = self.waiting.remove(&id);
            match taken {
                Some(v) => out.push(v),
                None => {},
            }
            proof {
                assert(before.contains_key(id_seq[i as int]));
                assert forall|k: int| i + 1 <= k < id_seq.len() implies self.waiting@.contains_key(#[trigger] id_seq[k]) && self.waiting@[id_seq[k]] == old_map[id_seq[k]] by {
                    assert(id_seq[k] != id_seq[i as int]);
                }
                assert forall|x: u64| #[trigger] self.waiting@.contains_key(x) implies id_seq.subrange(i + 1, id_seq.len() as int).contains(x) by {
                    assert(before.contains_key(x));
                    let sub = id_seq.subrange(i as int, id_seq.len() as int);
                    let j = choose|j: int| 0 <= j < sub.len() && sub[j] == x;
                    assert(j != 0);
                    assert(id_seq.subrange(i + 1, id_seq.len() as int)[j - 1] == x);
                }
            }
            i = i + 1;
        }
        proof {
            assert(self.waiting@ =~= Map::<u64, S>::empty()) by {
                assert forall|x: u64| !self.waiting@.contains_key(x) by {
                    if self.waiting@.contains_key(x) {
                        let sub = id_seq.subrange(i as int, id_seq.len() as int);
                        assert(sub.len() == 0);
                    }
                }
            }
            assert forall|id: u64| #[trigger] id_seq.contains(id) <==> old_map.contains_key(id) by {
                assert(id_seq.to_set().contains(id) == id_seq.contains(id));
            }
        }
        out
    }
}

/// One operation on a table of pending requests: a registration that gave id `id`
/// (`issued == Some(id)`), or taking or draining requests (`issued == None`). `register`,
/// `take` and `drain` each make such a step.
pub open spec fn table_step<S>(before: PendingRequests<S>, after: PendingRequests<S>, issued: Option<u64>) -> bool {
    match issued {
        Some(id) => {
            &&& id == before.next()
            &&& after.next() == (if id == u64::MAX { 0 } else { (id + 1) as u64 })
            &&& after.waiting_map().dom() == before.waiting_map().dom().insert(id)
        },
        None => {
            &&& after.next() == before.next()
            &&& after.waiting_map().dom().subset_of(before.waiting_map().dom())
        },
    }
}

proof fn lemma_table_history<S>(tables: Seq<PendingRequests<S>>, issued: Seq<Option<u64>>, k: int)
    requires
        tables.len() == issued.len() + 1,
        issued.len() < u64::MAX,
        tables[0].next() == 1,
        tables[0].waiting_map().dom() == Set::<u64>::empty(),
        forall|i: int| 0 <= i < issued.len() ==> table_step(#[trigger] tables[i], tables[i + 1], issued[i]),
        0 <= k <= issued.len(),
    ensures
        1 <= tables[k].next() <= k + 1,
        forall|x: u64| #[trigger] tables[k].waiting_map().contains_key(x) ==> x < tables[k].next(),
        forall|i: int| 0 <= i < k && #[trigger] issued[i] is Some ==> issued[i]->0 < tables[k].next(),
        forall|i: int| 0 <= i <= k ==> #[trigger] tables[i].next() <= tables[k].next(),
    decreases k,
{
    if k > 0 {
        lemma_table_history(tables, issued, k - 1);
        let before = tables[k - 1];
        let after = tables[k];
        assert(table_step(before, after, issued[k - 1]));
        assert forall|x: u64| #[trigger] after.waiting_map().contains_key(x) implies x < after.next() by {
            assert(after.waiting_map().dom().contains(x));
            if issued[k - 1] is None {
                assert(before.waiting_map().dom().contains(x));
            } else if x != issued[k - 1]->0 {
                assert(before.waiting_map().dom().contains(x));
            }
        }
        assert forall|i: int| 0 <= i <= k implies #[trigger] tables[i].next() <= tables[k].next() by {
            if i < k {
                assert(tables[i].next() <= tables[k - 1].next());
            }
        }
    }
}

/// Request ids are fresh and never reused: over the life of a table that starts empty with
/// next id 1 (as `new` makes it), every registration gets an id that no waiting request has,
/// and later registrations get strictly larger ids, as long as fewer than 2^64 - 1 operations
/// were made.
pub proof fn law_request_ids_are_fresh<S>(tables: Seq<PendingRequests<S>>, issued: Seq<Option<u64>>)
    requires
        tables.len() == issued.len() + 1,
        issued.len() < u64::MAX,
        tables[0].next() == 1,
        tables[0].waiting_map().dom() == Set::<u64>::empty(),
        forall|i: int| 0 <= i < issued.len() ==> table_step(#[trigger] tables[i], tables[i + 1], issued[i]),
    ensures
        forall|i: int| 0 <= i < issued.len() && #[trigger] issued[i] is Some ==> !tables[i].waiting_map().contains_key(issued[i]->0),
        forall|i: int, j: int| #![trigger issued[i], issued[j]]
            0 <= i < j < issued.len() && issued[i] is Some && issued[j] is Some ==> issued[i]->0 < issued[j]->0,
{
    assert forall|i: int| 0 <= i < issued.len() && #[trigger] issued[i] is Some implies !tables[i].waiting_map().contains_key(issued[i]->0) by {
        lemma_table_history(tables, issued, i);
        assert(table_step(tables[i], tables[i + 1], issued[i]));
    }
    assert forall|i: int, j: int| #![trigger issued[i], issued[j]]
        0 <= i < j < issued.len() && issued[i] is Some && issued[j] is Some implies issued[i]->0 < issued[j]->0 by {
        lemma_table_history(tables, issued, i + 1);
        lemma_table_history(tables, issued, j);
        assert(table_step(tables[j], tables[j + 1], issued[j]));
        assert(tables[i + 1].next() <= tables[j].next());
    }
}

} // verus!
