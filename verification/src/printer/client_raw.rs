use vstd::prelude::*;
use vstd::string::*;
use crate::json::{JsonValue, JsonTree, tree_get, lemma_entries_map_small};
use crate::text::str_equal;
use crate::printer::state::{status_ok, device_ok, check_status, check_device};

verus! {

/// The printer's RPC method numbers that a session uses.
#[derive(Clone, Copy)]
pub struct MethodIds {
    pub get_full_status: u16,
    pub get_device_info: u16,
    pub get_ams_info: u16,
    pub status_push: u16,
}

/// The MQTT topics of one session.
pub struct Topics {
    pub register_response: String,
    pub api_response: String,
    pub api_status: String,
    pub api_request: String,
    pub api_register: String,
}

/// `elegoo/<printer>/` followed by `rest`.
pub open spec fn printer_topic(printer_id: Seq<char>, rest: Seq<char>) -> Seq<char> {
    "elegoo/"@ + printer_id + "/"@ + rest
}

fn make_topic(printer_id: &str, middle: &str, tail: &str) -> (r: String)
    ensures
        r@ == "elegoo/"@ + printer_id@ + "/"@ + middle@ + tail@,
{
    let mut r = String::from_str("elegoo/");
    r.append(printer_id);
    r.append("/");
    r.append(middle);
    r.append(tail);
    r
}

impl Topics {
    /// The topics a client uses with a printer.
    pub fn new(printer_id: &str, client_id: &str) -> (t: Topics)
        ensures
            t.register_response@ == printer_topic(printer_id@, client_id@ + "_req/register_response"@),
            t.api_response@ == printer_topic(printer_id@, client_id@ + "/api_response"@),
            t.api_status@ == printer_topic(printer_id@, "api_status"@),
            t.api_request@ == printer_topic(printer_id@, client_id@ + "/api_request"@),
            t.api_register@ == printer_topic(printer_id@, "api_register"@),
    {
        proof {
            reveal_strlit("");
        }
        let t = Topics {
            register_response: make_topic(printer_id, client_id, "_req/register_response"),
            api_response: make_topic(printer_id, client_id, "/api_response"),
            api_status: make_topic(printer_id, "api_status", ""),
            api_request: make_topic(printer_id, client_id, "/api_request"),
            api_register: make_topic(printer_id, "api_register", ""),
        };
        assert(t.api_status@ =~= printer_topic(printer_id@, "api_status"@));
        assert(t.api_register@ =~= printer_topic(printer_id@, "api_register"@));
        assert(t.register_response@ =~= printer_topic(printer_id@, client_id@ + "_req/register_response"@));
        assert(t.api_response@ =~= printer_topic(printer_id@, client_id@ + "/api_response"@));
        assert(t.api_request@ =~= printer_topic(printer_id@, client_id@ + "/api_request"@));
        t
    }
}

/// The registration request of a client.
pub open spec fn register_tree(client_id: Seq<char>) -> JsonTree {
    JsonTree::Object(
        map![
            "client_id"@ => JsonTree::Str(client_id),
            "request_id"@ => JsonTree::Str(client_id + "_req"@),
        ],
    )
}

/// The registration request: the client's identifier and the request
/// identifier `<client>_req`.
pub fn register_request(client_id: &str) -> (r: JsonValue)
    ensures
        r.tree() == register_tree(client_id@),
{
    let mut request_id = client_id.to_owned();
    request_id.append("_req");
    let mut entries: Vec<(String, JsonValue)> = Vec::new();
    entries.push((String::from_str("client_id"), JsonValue::Str(client_id.to_owned())));
    entries.push((String::from_str("request_id"), JsonValue::Str(request_id)));
    proof {
        lemma_entries_map_small(entries@);
    }
    JsonValue::Object(entries)
}

/// The client of the printer's raw MQTT API (port 1883).
pub struct MqttRawClient;

/// How a session ends.
pub enum RawFinish {
    /// Shut down, or the command channel closed.
    Done,
    /// The printer refused the registration; the text is its error.
    Registration(String),
    /// The MQTT connection failed.
    Mqtt,
}

/// Something the event loop does on the session's behalf.
pub enum RawAction {
    /// Subscribe to a topic, at-least-once or at-most-once.
    Subscribe { topic: String, at_least_once: bool },
    /// Publish a JSON message to a topic, at-least-once or at-most-once.
    Publish { topic: String, payload: JsonValue, at_least_once: bool },
    /// Tell watchers whether the client is connected.
    SetConnected(bool),
    /// Tell watchers that the printer state changed.
    StateChanged,
    /// Merge a status delta into the printer state.
    MergeDelta(JsonValue),
    /// Replace the status with a full status report.
    Seed(JsonValue),
    /// Store the device description.
    SetDeviceInfo(JsonValue),
    /// Store the canvas description.
    SetCanvas(JsonValue),
    /// Disconnect from the broker.
    Disconnect,
    /// Leave the event loop.
    Finish(RawFinish),
}

/// What the event loop hands the session.
pub enum RawEvent {
    /// The shutdown signal changed to the given value.
    Shutdown(bool),
    /// The heartbeat timer fired.
    HeartbeatTick,
    /// A command to forward to the printer.
    Command { id: u64, method: u64, params: Option<JsonValue> },
    /// The command channel dropped commands.
    CommandLagged,
    /// The command channel closed.
    CommandClosed,
    /// A message arrived on a topic; its payload as JSON, `None` when it is not JSON.
    Publish { topic: String, payload: Option<JsonValue> },
    /// The connection failed.
    PollError,
}

/// How a session ends, as text and tags.
pub enum FinishView {
    Done,
    Registration(Seq<char>),
    Mqtt,
}

/// An action as values.
pub enum ActionView {
    Subscribe(Seq<char>, bool),
    Publish(Seq<char>, JsonTree, bool),
    SetConnected(bool),
    StateChanged,
    MergeDelta(JsonTree),
    Seed(JsonTree),
    SetDeviceInfo(JsonTree),
    SetCanvas(JsonTree),
    Disconnect,
    Finish(FinishView),
}

impl RawAction {
    /// This action as values.
    pub open spec fn view(self) -> ActionView {
        match self {
            RawAction::Subscribe { topic, at_least_once } => ActionView::Subscribe(
                topic@,
                at_least_once,
            ),
            RawAction::Publish { topic, payload, at_least_once } => ActionView::Publish(
                topic@,
                payload.tree(),
                at_least_once,
            ),
            RawAction::SetConnected(c) => ActionView::SetConnected(c),
            RawAction::StateChanged => ActionView::StateChanged,
            RawAction::MergeDelta(v) => ActionView::MergeDelta(v.tree()),
            RawAction::Seed(v) => ActionView::Seed(v.tree()),
            RawAction::SetDeviceInfo(v) => ActionView::SetDeviceInfo(v.tree()),
            RawAction::SetCanvas(v) => ActionView::SetCanvas(v.tree()),
            RawAction::Disconnect => ActionView::Disconnect,
            RawAction::Finish(f) => ActionView::Finish(
                match f {
                    RawFinish::Done => FinishView::Done,
                    RawFinish::Registration(e) => FinishView::Registration(e@),
                    RawFinish::Mqtt => FinishView::Mqtt,
                },
            ),
        }
    }
}

/// The views of a sequence of actions.
pub open spec fn action_views(actions: Seq<RawAction>) -> Seq<ActionView> {
    actions.map_values(|a: RawAction| a.view())
}

/// The decisions of one raw session: whether the printer accepted the
/// registration, and the identifier of the next request.
pub struct RawSession {
    pub registered: bool,
    pub next_id: u64,
    pub methods: MethodIds,
    pub topics: Topics,
}

/// A request message: its identifier, method, and parameters when given.
pub open spec fn request_tree(id: u64, method: u64, params: Option<JsonTree>) -> JsonTree {
    let base = map!["id"@ => JsonTree::UInt(id), "method"@ => JsonTree::UInt(method)];
    JsonTree::Object(
        match params {
            Some(p) => base.insert("params"@, p),
            None => base,
        },
    )
}

/// The heartbeat message.
pub open spec fn ping_tree() -> JsonTree {
    JsonTree::Object(map!["type"@ => JsonTree::Str("PING"@)])
}

/// The tree of an optional JSON value.
pub open spec fn opt_tree(v: Option<JsonValue>) -> Option<JsonTree> {
    match v {
        Some(x) => Some(x.tree()),
        None => None,
    }
}

/// The `error` text of a registration response.
pub open spec fn register_error(payload: Option<JsonValue>) -> Option<Seq<char>> {
    match payload {
        Some(v) => match tree_get(v.tree(), "error"@) {
            Some(JsonTree::Str(e)) => Some(e),
            _ => None,
        },
        None => None,
    }
}

/// What a status message asks for: a status push carries a delta to merge;
/// heartbeats and anything else ask for nothing.
pub open spec fn status_actions(methods: MethodIds, payload: Option<JsonValue>) -> Seq<ActionView> {
    match payload {
        Some(v) => {
            let t = v.tree();
            let kind = tree_get(t, "type"@);
            if kind == Some(JsonTree::Str("PING"@)) || kind == Some(JsonTree::Str("PONG"@)) {
                seq![]
            } else if tree_get(t, "method"@) == Some(JsonTree::UInt(methods.status_push as u64)) {
                match tree_get(t, "result"@) {
                    Some(r) => seq![ActionView::MergeDelta(r), ActionView::StateChanged],
                    None => seq![],
                }
            } else {
                seq![]
            }
        },
        None => seq![],
    }
}

/// The method, error code and data of an RPC response.
pub open spec fn response_parts(payload: Option<JsonValue>) -> Option<(u64, u64, JsonTree)> {
    match payload {
        Some(v) => {
            let t = v.tree();
            match tree_get(t, "method"@) {
                Some(JsonTree::UInt(m)) => match tree_get(t, "result"@) {
                    Some(result) => match (tree_get(result, "error_code"@), tree_get(result, "data"@)) {
                        (Some(JsonTree::UInt(code)), Some(data)) => Some((m, code, data)),
                        _ => None,
                    },
                    None => None,
                },
                _ => None,
            }
        },
        None => None,
    }
}

/// What an RPC response asks for: a successful full status that fits the
/// status type seeds the state, device info that fits the device type is
/// stored, and the canvas part of an AMS answer is stored.
pub open spec fn response_actions(methods: MethodIds, payload: Option<JsonValue>) -> Seq<ActionView> {
    match response_parts(payload) {
        Some((m, code, data)) => if m == methods.get_full_status as u64 && code == 0 {
            if status_ok(data) {
                seq![ActionView::Seed(data), ActionView::StateChanged]
            } else {
                seq![]
            }
        } else if m == methods.get_device_info as u64 && code == 0 {
            if device_ok(data) {
                seq![ActionView::SetDeviceInfo(data)]
            } else {
                seq![]
            }
        } else if m == methods.get_ams_info as u64 && code == 0 {
            match tree_get(data, "canvas_info"@) {
                Some(c) => seq![ActionView::SetCanvas(c), ActionView::StateChanged],
                None => seq![],
            }
        } else {
            seq![]
        },
        None => seq![],
    }
}

/// The requests sent once registered: full status, device info, AMS info,
/// with consecutive identifiers from `id`.
pub open spec fn initial_requests(topic: Seq<char>, methods: MethodIds, id: u64) -> Seq<ActionView> {
    let empty = JsonTree::Object(Map::empty());
    seq![
        ActionView::Publish(topic, request_tree(id, methods.get_full_status as u64, Some(empty)), true),
        ActionView::Publish(
            topic,
            request_tree(id.wrapping_add(1), methods.get_device_info as u64, Some(empty)),
            true,
        ),
        ActionView::Publish(
            topic,
            request_tree(id.wrapping_add(2), methods.get_ams_info as u64, Some(empty)),
            true,
        ),
    ]
}

/// The actions a session takes for an event.
pub open spec fn step_actions(s: RawSession, e: RawEvent) -> Seq<ActionView> {
    match e {
        RawEvent::Shutdown(stop) => if stop {
            seq![
                ActionView::Disconnect,
                ActionView::SetConnected(false),
                ActionView::StateChanged,
                ActionView::Finish(FinishView::Done),
            ]
        } else {
            seq![]
        },
        RawEvent::HeartbeatTick => if s.registered {
            seq![ActionView::Publish(s.topics.api_request@, ping_tree(), false)]
        } else {
            seq![]
        },
        RawEvent::Command { id, method, params } => seq![
            ActionView::Publish(s.topics.api_request@, request_tree(id, method, opt_tree(params)), true),
        ],
        RawEvent::CommandLagged => seq![],
        RawEvent::CommandClosed => seq![
            ActionView::SetConnected(false),
            ActionView::StateChanged,
            ActionView::Finish(FinishView::Done),
        ],
        RawEvent::PollError => seq![
            ActionView::SetConnected(false),
            ActionView::StateChanged,
            ActionView::Finish(FinishView::Mqtt),
        ],
        RawEvent::Publish { topic, payload } => if topic@ == s.topics.register_response@ {
            match register_error(payload) {
                Some(err) => if err == "ok"@ {
                    seq![ActionView::SetConnected(true), ActionView::StateChanged] + initial_requests(
                        s.topics.api_request@,
                        s.methods,
                        s.next_id,
                    )
                } else {
                    seq![ActionView::Finish(FinishView::Registration(err))]
                },
                None => seq![],
            }
        } else if topic@ == s.topics.api_status@ {
            status_actions(s.methods, payload)
        } else if topic@ == s.topics.api_response@ {
            response_actions(s.methods, payload)
        } else {
            seq![]
        },
    }
}

/// Whether an event is an accepted registration.
pub open spec fn accepts_registration(s: RawSession, e: RawEvent) -> bool {
    e matches RawEvent::Publish { topic, payload } && topic@ == s.topics.register_response@
        && register_error(payload) == Some("ok"@)
}

/// The session after an event: registered once the printer accepts the
/// registration, which also takes three request identifiers.
pub open spec fn next_session(s: RawSession, e: RawEvent) -> RawSession {
    if accepts_registration(s, e) {
        RawSession {
            registered: true,
            next_id: s.next_id.wrapping_add(3),
            methods: s.methods,
            topics: s.topics,
        }
    } else {
        s
    }
}

/// A request message for the printer.
fn request_message(id: u64, method: u64, params: Option<JsonValue>) -> (r: JsonValue)
    ensures
        r.tree() == request_tree(id, method, opt_tree(params)),
{
    let mut entries: Vec<(String, JsonValue)> = Vec::new();
    entries.push((String::from_str("id"), JsonValue::UInt(id)));
    entries.push((String::from_str("method"), JsonValue::UInt(method)));
    match params {
        Some(p) => {
            entries.push((String::from_str("params"), p));
        },
        None => {},
    }
    proof {
        lemma_entries_map_small(entries@);
    }
    JsonValue::Object(entries)
}

/// The heartbeat message.
fn ping_message() -> (r: JsonValue)
    ensures
        r.tree() == ping_tree(),
{
    let mut entries: Vec<(String, JsonValue)> = Vec::new();
    entries.push((String::from_str("type"), JsonValue::Str(String::from_str("PING"))));
    proof {
        lemma_entries_map_small(entries@);
    }
    JsonValue::Object(entries)
}

/// An empty JSON object.
fn empty_object() -> (r: JsonValue)
    ensures
        r.tree() == JsonTree::Object(Map::empty()),
{
    let r = JsonValue::Object(Vec::new());
    assert(r.tree() == JsonTree::Object(crate::json::entries_map(Seq::empty())));
    r
}

impl MqttRawClient {
    /// A fresh session: not registered, first request identifier 1.
    pub fn new_session(printer_id: &str, client_id: &str, methods: MethodIds) -> (s: RawSession)
        ensures
            !s.registered,
            s.next_id == 1,
            s.methods == methods,
            s.topics.api_request@ == printer_topic(printer_id@, client_id@ + "/api_request"@),
            s.topics.register_response@ == printer_topic(
                printer_id@,
                client_id@ + "_req/register_response"@,
            ),
            s.topics.api_response@ == printer_topic(printer_id@, client_id@ + "/api_response"@),
            s.topics.api_status@ == printer_topic(printer_id@, "api_status"@),
            s.topics.api_register@ == printer_topic(printer_id@, "api_register"@),
    {
        RawSession {
            registered: false,
            next_id: 1,
            methods,
            topics: Topics::new(printer_id, client_id),
        }
    }
}

impl RawSession {
    /// Takes the next request identifier.
    fn take_id(&mut self) -> (id: u64)
        ensures
            id == old(self).next_id,
            final(self).next_id == old(self).next_id.wrapping_add(1),
            final(self).registered == old(self).registered,
            final(self).methods == old(self).methods,
            final(self).topics == old(self).topics,
    {
        let id = self.next_id;
        self.next_id = self.next_id.wrapping_add(1);
        id
    }

    /// What a status message asks for.
    fn on_status(&self, payload: Option<JsonValue>) -> (r: Vec<RawAction>)
        ensures
            action_views(r@) == status_actions(self.methods, payload),
    {
        let mut r: Vec<RawAction> = Vec::new();
        let v = match payload {
            Some(v) => v,
            None => {
                assert(action_views(r@) =~= seq![]);
                return r;
            },
        };
        let heartbeat = match v.get("type") {
            Some(t) => match t.as_str() {
                Some(text) => str_equal(text, "PING") || str_equal(text, "PONG"),
                None => false,
            },
            None => false,
        };
        if heartbeat {
            assert(action_views(r@) =~= seq![]);
            return r;
        }
        let is_push = match v.get("method") {
            Some(m) => m.as_u64() == Some(self.methods.status_push as u64),
            None => false,
        };
        if is_push {
            match v.into_value_at("result") {
                Some(result) => {
                    r.push(RawAction::MergeDelta(result));
                    r.push(RawAction::StateChanged);
                },
                None => {},
            }
        }
        assert(action_views(r@) =~= status_actions(self.methods, payload));
        r
    }

    /// What an RPC response asks for.
    fn on_response(&self, payload: Option<JsonValue>) -> (r: Vec<RawAction>)
        ensures
            action_views(r@) == response_actions(self.methods, payload),
    {
        let mut r: Vec<RawAction> = Vec::new();
        let v = match payload {
            Some(v) => v,
            None => {
                assert(action_views(r@) =~= seq![]);
                return r;
            },
        };
        let method = match v.get("method") {
            Some(m) => match m.as_u64() {
                Some(n) => n,
                None => {
                    assert(action_views(r@) =~= seq![]);
                    return r;
                },
            },
            None => {
                assert(action_views(r@) =~= seq![]);
                return r;
            },
        };
        let result = match v.into_value_at("result") {
            Some(x) => x,
            None => {
                assert(action_views(r@) =~= seq![]);
                return r;
            },
        };
        let code = match result.get("error_code") {
            Some(c) => match c.as_u64() {
                Some(n) => n,
                None => {
                    assert(action_views(r@) =~= seq![]);
                    return r;
                },
            },
            None => {
                assert(action_views(r@) =~= seq![]);
                return r;
            },
        };
        let data = match result.into_value_at("data") {
            Some(d) => d,
            None => {
                assert(action_views(r@) =~= seq![]);
                return r;
            },
        };
        if method == self.methods.get_full_status as u64 && code == 0 {
            if check_status(&data) {
                r.push(RawAction::Seed(data));
                r.push(RawAction::StateChanged);
            }
        } else if method == self.methods.get_device_info as u64 && code == 0 {
            if check_device(&data) {
                r.push(RawAction::SetDeviceInfo(data));
            }
        } else if method == self.methods.get_ams_info as u64 && code == 0 {
            match data.into_value_at("canvas_info") {
                Some(c) => {
                    r.push(RawAction::SetCanvas(c));
                    r.push(RawAction::StateChanged);
                },
                None => {},
            }
        }
        assert(action_views(r@) =~= response_actions(self.methods, payload));
        r
    }

    /// The actions for one event of the event loop.
    pub fn step(&mut self, event: RawEvent) -> (r: Vec<RawAction>)
        ensures
            action_views(r@) == step_actions(*old(self), event),
            final(self).registered == (old(self).registered || accepts_registration(
                *old(self),
                event,
            )),
            final(self).next_id == if accepts_registration(*old(self), event) {
                old(self).next_id.wrapping_add(3)
            } else {
                old(self).next_id
            },
            final(self).methods == old(self).methods,
            final(self).topics == old(self).topics,
            *final(self) == next_session(*old(self), event),
    {
        let mut r: Vec<RawAction> = Vec::new();
        match event {
            RawEvent::Shutdown(stop) => {
                if stop {
                    r.push(RawAction::Disconnect);
                    r.push(RawAction::SetConnected(false));
                    r.push(RawAction::StateChanged);
                    r.push(RawAction::Finish(RawFinish::Done));
                }
            },
            RawEvent::HeartbeatTick => {
                if self.registered {
                    r.push(
                        RawAction::Publish {
                            topic: self.topics.api_request.clone(),
                            payload: ping_message(),
                            at_least_once: false,
                        },
                    );
                }
            },
            RawEvent::Command { id, method, params } => {
                r.push(
                    RawAction::Publish {
                        topic: self.topics.api_request.clone(),
                        payload: request_message(id, method, params),
                        at_least_once: true,
                    },
                );
            },
            RawEvent::CommandLagged => {},
            RawEvent::CommandClosed => {
                r.push(RawAction::SetConnected(false));
                r.push(RawAction::StateChanged);
                r.push(RawAction::Finish(RawFinish::Done));
            },
            RawEvent::PollError => {
                r.push(RawAction::SetConnected(false));
                r.push(RawAction::StateChanged);
                r.push(RawAction::Finish(RawFinish::Mqtt));
            },
            RawEvent::Publish { topic, payload } => {
                if str_equal(topic.as_str(), self.topics.register_response.as_str()) {
                    let error = match &payload {
                        Some(v) => match v.get("error") {
                            Some(e) => match e.as_str() {
                                Some(text) => Some(text.to_owned()),
                                None => None,
                            },
                            None => None,
                        },
                        None => None,
                    };
                    match error {
                        Some(err) => {
                            if str_equal(err.as_str(), "ok") {
                                self.registered = true;
                                r.push(RawAction::SetConnected(true));
                                r.push(RawAction::StateChanged);
                                let id1 = self.take_id();
                                r.push(
                                    RawAction::Publish {
                                        topic: self.topics.api_request.clone(),
                                        payload: request_message(
                                            id1,
                                            self.methods.get_full_status as u64,
                                            Some(empty_object()),
                                        ),
                                        at_least_once: true,
                                    },
                                );
                                let id2 = self.take_id();
                                r.push(
                                    RawAction::Publish {
                                        topic: self.topics.api_request.clone(),
                                        payload: request_message(
                                            id2,
                                            self.methods.get_device_info as u64,
                                            Some(empty_object()),
                                        ),
                                        at_least_once: true,
                                    },
                                );
                                let id3 = self.take_id();
                                r.push(
                                    RawAction::Publish {
                                        topic: self.topics.api_request.clone(),
                                        payload: request_message(
                                            id3,
                                            self.methods.get_ams_info as u64,
                                            Some(empty_object()),
                                        ),
                                        at_least_once: true,
                                    },
                                );
                                proof {
                                    let i0 = old(self).next_id;
                                    assert(id2 == i0.wrapping_add(1));
                                    assert(id3 == i0.wrapping_add(1).wrapping_add(1));
                                    assert(i0.wrapping_add(1).wrapping_add(1) == i0.wrapping_add(2)) by (bit_vector);
                                    assert(i0.wrapping_add(1).wrapping_add(1).wrapping_add(1) == i0.wrapping_add(3)) by (bit_vector);
                                }
                            } else {
                                r.push(RawAction::Finish(RawFinish::Registration(err)));
                            }
                        },
                        None => {},
                    }
                } else if str_equal(topic.as_str(), self.topics.api_status.as_str()) {
                    r = self.on_status(payload);
                } else if str_equal(topic.as_str(), self.topics.api_response.as_str()) {
                    r = self.on_response(payload);
                }
            },
        }
        assert(action_views(r@) =~= step_actions(*old(self), event));
        r
    }
}

/// What a session does before its event loop: subscribe to the
/// registration response (at-least-once), the RPC responses (at-least-once)
/// and the status pushes (at-most-once), then publish the registration
/// request (at-least-once); a failure of any of them ends the session.
pub open spec fn opening_actions(s: RawSession, client_id: Seq<char>) -> Seq<ActionView> {
    seq![
        ActionView::Subscribe(s.topics.register_response@, true),
        ActionView::Subscribe(s.topics.api_response@, true),
        ActionView::Subscribe(s.topics.api_status@, false),
        ActionView::Publish(s.topics.api_register@, register_tree(client_id), true),
    ]
}

impl RawSession {
    /// The actions that open the session, in order.
    pub fn opening(&self, client_id: &str) -> (r: Vec<RawAction>)
        ensures
            action_views(r@) == opening_actions(*self, client_id@),
    {
        let mut r: Vec<RawAction> = Vec::new();
        r.push(
            RawAction::Subscribe { topic: self.topics.register_response.clone(), at_least_once: true },
        );
        r.push(RawAction::Subscribe { topic: self.topics.api_response.clone(), at_least_once: true });
        r.push(RawAction::Subscribe { topic: self.topics.api_status.clone(), at_least_once: false });
        r.push(
            RawAction::Publish {
                topic: self.topics.api_register.clone(),
                payload: register_request(client_id),
                at_least_once: true,
            },
        );
        assert(action_views(r@) =~= opening_actions(*self, client_id@));
        r
    }
}

/// Whether an event ends the session: a shutdown, a closed command
/// channel, a failed connection, or a refused registration.
pub open spec fn ends_session(s: RawSession, e: RawEvent) -> bool {
    ||| e == RawEvent::Shutdown(true)
    ||| e is CommandClosed
    ||| e is PollError
    ||| refuses_registration(s, e)
}

/// Whether an event is a refused registration.
pub open spec fn refuses_registration(s: RawSession, e: RawEvent) -> bool {
    match e {
        RawEvent::Publish { topic, payload } => topic@ == s.topics.register_response@ && match register_error(payload) {
            Some(err) => err != "ok"@,
            None => false,
        },
        _ => false,
    }
}

/// A session leaves the event loop exactly on the events that end it, and
/// leaving is the last thing it does for that event.
pub proof fn law_session_ends_last(s: RawSession, e: RawEvent)
    ensures
        ({
            let a = step_actions(s, e);
            &&& (a.len() > 0 && a.last() is Finish) <==> ends_session(s, e)
            &&& forall|i: int| 0 <= i < a.len() - 1 ==> !(a[i] is Finish)
        }),
{
    let a = step_actions(s, e);
    match e {
        RawEvent::Publish { topic, payload } => {
            if topic@ == s.topics.register_response@ {
                if register_error(payload) == Some("ok"@) {
                    let init = initial_requests(s.topics.api_request@, s.methods, s.next_id);
                    assert(a == seq![ActionView::SetConnected(true), ActionView::StateChanged]
                        + init);
                    assert(a.len() == 5);
                    assert(a[2] == init[0] && a[3] == init[1] && a[4] == init[2]);
                }
            }
        },
        _ => {},
    }
}

/// The actions a session takes for a run of events, in order.
pub open spec fn run_actions(s: RawSession, es: Seq<RawEvent>) -> Seq<ActionView>
    decreases es.len(),
{
    if es.len() == 0 {
        Seq::empty()
    } else {
        step_actions(s, es[0]) + run_actions(next_session(s, es[0]), es.drop_first())
    }
}

/// The session after a run of events.
pub open spec fn session_after(s: RawSession, es: Seq<RawEvent>) -> RawSession
    decreases es.len(),
{
    if es.len() == 0 {
        s
    } else {
        session_after(next_session(s, es[0]), es.drop_first())
    }
}

/// The heartbeat publish of a session: the ping, at-most-once, to its
/// request topic.
pub open spec fn heartbeat_publish(s: RawSession) -> ActionView {
    ActionView::Publish(s.topics.api_request@, ping_tree(), false)
}

/// Until the printer accepts the registration, a session publishes no
/// heartbeat ping, whatever events come.
pub proof fn law_no_ping_before_registration(s: RawSession, es: Seq<RawEvent>)
    requires
        !s.registered,
        forall|i: int| 0 <= i < es.len() ==> !accepts_registration(s, #[trigger] es[i]),
    ensures
        forall|j: int|
            0 <= j < run_actions(s, es).len() ==> run_actions(s, es)[j] != heartbeat_publish(s),
        !session_after(s, es).registered,
    decreases es.len(),
{
    if es.len() > 0 {
        let e = es[0];
        assert(!accepts_registration(s, e));
        assert(next_session(s, e) == s);
        let rest = es.drop_first();
        assert forall|i: int| 0 <= i < rest.len() implies !accepts_registration(s, #[trigger] rest[i]) by {
            assert(rest[i] == es[i + 1]);
        }
        law_no_ping_before_registration(s, rest);
        let a = step_actions(s, e);
        assert forall|j: int| 0 <= j < a.len() implies a[j] != heartbeat_publish(s) by {
            match e {
                RawEvent::Publish { topic, payload } => {
                    if topic@ == s.topics.register_response@ {
                        if register_error(payload) == Some("ok"@) {
                        }
                    }
                },
                _ => {},
            }
        }
        let all = run_actions(s, es);
        assert(all == a + run_actions(s, rest));
        assert forall|j: int| 0 <= j < all.len() implies all[j] != heartbeat_publish(s) by {
            if j < a.len() {
                assert(all[j] == a[j]);
            } else {
                assert(all[j] == run_actions(s, rest)[j - a.len()]);
            }
        }
    }
}

/// Once the printer has accepted the registration, the session stays
/// registered, and every heartbeat tick publishes exactly one ping,
/// at-most-once, to the request topic.
pub proof fn law_heartbeat_after_registration(s: RawSession, es: Seq<RawEvent>)
    requires
        s.registered || exists|i: int| 0 <= i < es.len() && accepts_registration(s, #[trigger] es[i]),
    ensures
        session_after(s, es).registered,
        session_after(s, es).topics == s.topics,
        step_actions(session_after(s, es), RawEvent::HeartbeatTick) == seq![heartbeat_publish(s)],
    decreases es.len(),
{
    lemma_session_after_topics(s, es);
    if es.len() > 0 {
        let e = es[0];
        let n = next_session(s, e);
        let rest = es.drop_first();
        if !s.registered && !accepts_registration(s, e) {
            let i = choose|i: int| 0 <= i < es.len() && accepts_registration(s, #[trigger] es[i]);
            assert(i > 0);
            assert(rest[i - 1] == es[i]);
            assert(n == s);
        }
        law_heartbeat_after_registration(n, rest);
    }
}

/// A run of events keeps the session's topics.
proof fn lemma_session_after_topics(s: RawSession, es: Seq<RawEvent>)
    ensures
        session_after(s, es).topics == s.topics,
    decreases es.len(),
{
    if es.len() > 0 {
        lemma_session_after_topics(next_session(s, es[0]), es.drop_first());
    }
}

/// Whether a session's topics are those of client `c` of printer `p`.
pub open spec fn session_topics(s: RawSession, p: Seq<char>, c: Seq<char>) -> bool {
    &&& s.topics.register_response@ == printer_topic(p, c + "_req/register_response"@)
    &&& s.topics.api_response@ == printer_topic(p, c + "/api_response"@)
    &&& s.topics.api_status@ == printer_topic(p, "api_status"@)
    &&& s.topics.api_request@ == printer_topic(p, c + "/api_request"@)
    &&& s.topics.api_register@ == printer_topic(p, "api_register"@)
}

/// The status topic of a printer is neither the registration response
/// topic nor the RPC response topic of any of its clients.
proof fn lemma_status_topic_distinct(s: RawSession, p: Seq<char>, c: Seq<char>)
    requires
        session_topics(s, p, c),
    ensures
        s.topics.api_status@ != s.topics.register_response@,
        s.topics.api_status@ != s.topics.api_response@,
{
    reveal_strlit("elegoo/");
    reveal_strlit("/");
    reveal_strlit("api_status");
    reveal_strlit("_req/register_response");
    reveal_strlit("/api_response");
    assert(s.topics.api_status@.len() == 8 + p.len() + 10);
    assert(s.topics.register_response@.len() == 8 + p.len() + c.len() + 22);
    assert(s.topics.api_response@.len() == 8 + p.len() + c.len() + 13);
}

/// A status push on the status topic merges exactly the push's `result`
/// into the printer state, then reports the change; nothing else is done.
pub proof fn law_status_push_merges_result(
    s: RawSession,
    p: Seq<char>,
    c: Seq<char>,
    topic: String,
    payload: JsonValue,
)
    requires
        session_topics(s, p, c),
        topic@ == printer_topic(p, "api_status"@),
        tree_get(payload.tree(), "method"@) == Some(JsonTree::UInt(s.methods.status_push as u64)),
        tree_get(payload.tree(), "result"@) is Some,
        tree_get(payload.tree(), "type"@) != Some(JsonTree::Str("PING"@)),
        tree_get(payload.tree(), "type"@) != Some(JsonTree::Str("PONG"@)),
    ensures
        step_actions(s, RawEvent::Publish { topic, payload: Some(payload) }) == seq![
            ActionView::MergeDelta(tree_get(payload.tree(), "result"@).unwrap()),
            ActionView::StateChanged,
        ],
{
    lemma_status_topic_distinct(s, p, c);
}

/// A message on the status topic that is a heartbeat, or not a status
/// push, or a push without a `result`, changes nothing.
pub proof fn law_status_other_messages_ignored(
    s: RawSession,
    p: Seq<char>,
    c: Seq<char>,
    topic: String,
    payload: Option<JsonValue>,
)
    requires
        session_topics(s, p, c),
        topic@ == printer_topic(p, "api_status"@),
        match payload {
            Some(v) => {
                ||| tree_get(v.tree(), "type"@) == Some(JsonTree::Str("PING"@))
                ||| tree_get(v.tree(), "type"@) == Some(JsonTree::Str("PONG"@))
                ||| tree_get(v.tree(), "method"@) != Some(
                    JsonTree::UInt(s.methods.status_push as u64),
                )
                ||| tree_get(v.tree(), "result"@) is None
            },
            None => true,
        },
    ensures
        step_actions(s, RawEvent::Publish { topic, payload }).len() == 0,
{
    lemma_status_topic_distinct(s, p, c);
}

/// A command is published once, at-least-once, to the client's request
/// topic, as a message carrying the command's identifier, method and
/// parameters.
pub proof fn law_command_goes_to_request_topic(
    s: RawSession,
    p: Seq<char>,
    c: Seq<char>,
    id: u64,
    method: u64,
    params: Option<JsonValue>,
)
    requires
        session_topics(s, p, c),
    ensures
        ({
            let a = step_actions(s, RawEvent::Command { id, method, params });
            &&& a.len() == 1
            &&& a[0] matches ActionView::Publish(t, body, qos) && {
                &&& t == printer_topic(p, c + "/api_request"@)
                &&& qos
                &&& tree_get(body, "id"@) == Some(JsonTree::UInt(id))
                &&& tree_get(body, "method"@) == Some(JsonTree::UInt(method))
                &&& tree_get(body, "params"@) == match params {
                    Some(v) => Some(v.tree()),
                    None => None,
                }
            }
        }),
{
    reveal_strlit("id");
    reveal_strlit("method");
    reveal_strlit("params");
    assert("id"@.len() == 2 && "method"@.len() == 6 && "params"@.len() == 6);
    assert("method"@[0] != "params"@[0]);
}

/// The RPC response topic of a client is not its registration response topic.
proof fn lemma_response_topic_distinct(s: RawSession, p: Seq<char>, c: Seq<char>)
    requires
        session_topics(s, p, c),
    ensures
        s.topics.api_response@ != s.topics.register_response@,
{
    reveal_strlit("elegoo/");
    reveal_strlit("/");
    reveal_strlit("_req/register_response");
    reveal_strlit("/api_response");
    assert(s.topics.register_response@.len() == 8 + p.len() + c.len() + 22);
    assert(s.topics.api_response@.len() == 8 + p.len() + c.len() + 13);
}

/// Whether a request body carries that identifier and method and empty parameters.
pub open spec fn is_request(body: JsonTree, id: u64, method: u64) -> bool {
    &&& tree_get(body, "id"@) == Some(JsonTree::UInt(id))
    &&& tree_get(body, "method"@) == Some(JsonTree::UInt(method))
    &&& tree_get(body, "params"@) == Some(JsonTree::Object(Map::empty()))
}

/// When the printer accepts the registration, the session reports itself
/// connected and then asks, on its request topic and at-least-once, for
/// the full status, the device information and the AMS information, with
/// consecutive request identifiers; a refusal ends the session with the
/// printer's error.
pub proof fn law_registration_answer(
    s: RawSession,
    p: Seq<char>,
    c: Seq<char>,
    topic: String,
    payload: JsonValue,
    err: Seq<char>,
)
    requires
        session_topics(s, p, c),
        topic@ == printer_topic(p, c + "_req/register_response"@),
        tree_get(payload.tree(), "error"@) == Some(JsonTree::Str(err)),
    ensures
        ({
            let a = step_actions(s, RawEvent::Publish { topic, payload: Some(payload) });
            let req = printer_topic(p, c + "/api_request"@);
            &&& err == "ok"@ ==> {
                &&& a.len() == 5
                &&& a[0] == ActionView::SetConnected(true)
                &&& a[1] == ActionView::StateChanged
                &&& a[2] matches ActionView::Publish(t, b, q) && t == req && q && is_request(
                    b,
                    s.next_id,
                    s.methods.get_full_status as u64,
                )
                &&& a[3] matches ActionView::Publish(t, b, q) && t == req && q && is_request(
                    b,
                    s.next_id.wrapping_add(1),
                    s.methods.get_device_info as u64,
                )
                &&& a[4] matches ActionView::Publish(t, b, q) && t == req && q && is_request(
                    b,
                    s.next_id.wrapping_add(2),
                    s.methods.get_ams_info as u64,
                )
            }
            &&& err != "ok"@ ==> a == seq![ActionView::Finish(FinishView::Registration(err))]
        }),
{
    reveal_strlit("id");
    reveal_strlit("method");
    reveal_strlit("params");
    assert("id"@.len() == 2 && "method"@.len() == 6 && "params"@.len() == 6);
    assert("method"@[0] != "params"@[0]);
}

/// A successful RPC response on the response topic updates the state from
/// its `data` by method: a fitting full status seeds the status, a fitting
/// device description is stored, and an AMS answer's canvas is stored; a
/// response with a non-zero error code changes nothing.
pub proof fn law_response_by_method(
    s: RawSession,
    p: Seq<char>,
    c: Seq<char>,
    topic: String,
    payload: JsonValue,
    method: u64,
    code: u64,
    data: JsonTree,
)
    requires
        session_topics(s, p, c),
        topic@ == printer_topic(p, c + "/api_response"@),
        s.methods.get_full_status != s.methods.get_device_info,
        s.methods.get_full_status != s.methods.get_ams_info,
        s.methods.get_device_info != s.methods.get_ams_info,
        tree_get(payload.tree(), "method"@) == Some(JsonTree::UInt(method)),
        tree_get(payload.tree(), "result"@) matches Some(result) && tree_get(result, "error_code"@)
            == Some(JsonTree::UInt(code)) && tree_get(result, "data"@) == Some(data),
    ensures
        ({
            let a = step_actions(s, RawEvent::Publish { topic, payload: Some(payload) });
            &&& code != 0 ==> a.len() == 0
            &&& code == 0 && method == s.methods.get_full_status ==> a == if status_ok(data) {
                seq![ActionView::Seed(data), ActionView::StateChanged]
            } else {
                Seq::empty()
            }
            &&& code == 0 && method == s.methods.get_device_info ==> a == if device_ok(data) {
                seq![ActionView::SetDeviceInfo(data)]
            } else {
                Seq::empty()
            }
            &&& code == 0 && method == s.methods.get_ams_info ==> a == match tree_get(
                data,
                "canvas_info"@,
            ) {
                Some(cv) => seq![ActionView::SetCanvas(cv), ActionView::StateChanged],
                None => Seq::empty(),
            }
        }),
{
    lemma_status_topic_distinct(s, p, c);
    lemma_response_topic_distinct(s, p, c);
}

} // verus!
