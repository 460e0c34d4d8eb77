use cc2_openwebui::json::JsonValue;
use cc2_openwebui::printer::client_raw::{
    register_request, MethodIds, MqttRawClient, RawAction, RawEvent, RawFinish,
};

const METHODS: MethodIds = MethodIds { get_full_status: 1002, get_device_info: 1001, get_ams_info: 2005, status_push: 6000 };

fn obj(entries: Vec<(&str, JsonValue)>) -> JsonValue {
    JsonValue::Object(entries.into_iter().map(|(k, v)| (k.to_string(), v)).collect())
}

fn publish(topic: &str, payload: JsonValue) -> RawEvent {
    RawEvent::Publish { topic: topic.to_string(), payload: Some(payload) }
}

#[test]
fn topics_and_registration_request() {
    let s = MqttRawClient::new_session("P1", "web", METHODS);
    assert_eq!(s.topics.register_response, "elegoo/P1/web_req/register_response");
    assert_eq!(s.topics.api_response, "elegoo/P1/web/api_response");
    assert_eq!(s.topics.api_status, "elegoo/P1/api_status");
    assert_eq!(s.topics.api_request, "elegoo/P1/web/api_request");
    assert_eq!(s.topics.api_register, "elegoo/P1/api_register");
    let r = register_request("web");
    assert_eq!(r.get("client_id"), Some(&JsonValue::Str("web".to_string())));
    assert_eq!(r.get("request_id"), Some(&JsonValue::Str("web_req".to_string())));
}

#[test]
fn heartbeat_waits_for_registration() {
    let mut s = MqttRawClient::new_session("P", "c", METHODS);
    assert!(s.step(RawEvent::HeartbeatTick).is_empty());
    let actions = s.step(publish("elegoo/P/c_req/register_response", obj(vec![("error", JsonValue::Str("ok".to_string()))])));
    assert!(s.registered);
    assert_eq!(actions.len(), 5);
    assert!(matches!(actions[0], RawAction::SetConnected(true)));
    assert!(matches!(actions[1], RawAction::StateChanged));
    let ids: Vec<(u64, u64)> = actions[2..]
        .iter()
        .map(|a| match a {
            RawAction::Publish { topic, payload, at_least_once } => {
                assert_eq!(topic, "elegoo/P/c/api_request");
                assert!(*at_least_once);
                assert_eq!(payload.get("params"), Some(&JsonValue::Object(vec![])));
                (payload.get("id").unwrap().as_u64().unwrap(), payload.get("method").unwrap().as_u64().unwrap())
            }
            _ => panic!("expected a request"),
        })
        .collect();
    assert_eq!(ids, vec![(1, 1002), (2, 1001), (3, 2005)]);
    assert_eq!(s.next_id, 4);
    let beat = s.step(RawEvent::HeartbeatTick);
    match &beat[..] {
        [RawAction::Publish { payload, at_least_once: false, .. }] => {
            assert_eq!(payload.get("type"), Some(&JsonValue::Str("PING".to_string())));
        }
        _ => panic!("expected a ping"),
    }
}

#[test]
fn refused_registration_ends_session() {
    let mut s = MqttRawClient::new_session("P", "c", METHODS);
    let actions = s.step(publish("elegoo/P/c_req/register_response", obj(vec![("error", JsonValue::Str("denied".to_string()))])));
    match &actions[..] {
        [RawAction::Finish(RawFinish::Registration(e))] => assert_eq!(e, "denied"),
        _ => panic!("expected a refusal"),
    }
    assert!(!s.registered);
}

#[test]
fn status_push_merges_delta() {
    let mut s = MqttRawClient::new_session("P", "c", METHODS);
    let delta = obj(vec![("print_status", obj(vec![("state", JsonValue::Str("paused".to_string()))]))]);
    let actions = s.step(publish("elegoo/P/api_status", obj(vec![("method", JsonValue::UInt(6000)), ("result", delta)])));
    assert_eq!(actions.len(), 2);
    assert!(matches!(&actions[0], RawAction::MergeDelta(JsonValue::Object(_))));
    let ping = s.step(publish("elegoo/P/api_status", obj(vec![("type", JsonValue::Str("PONG".to_string())), ("method", JsonValue::UInt(6000)), ("result", JsonValue::Null)])));
    assert!(ping.is_empty());
    assert!(s.step(RawEvent::Publish { topic: "elegoo/P/api_status".to_string(), payload: None }).is_empty());
}

#[test]
fn responses_update_state() {
    let mut s = MqttRawClient::new_session("P", "c", METHODS);
    let response = |method: u64, code: u64, data: JsonValue| {
        publish("elegoo/P/c/api_response", obj(vec![("method", JsonValue::UInt(method)), ("result", obj(vec![("error_code", JsonValue::UInt(code)), ("data", data)]))]))
    };
    let full = s.step(response(1002, 0, obj(vec![("a", JsonValue::Null)])));
    assert!(matches!(&full[..], [RawAction::Seed(_), RawAction::StateChanged]));
    assert!(s.step(response(1002, 1, obj(vec![]))).is_empty());
    let dev = s.step(response(1001, 0, obj(vec![("machine_model", JsonValue::Str("CC2".to_string()))])));
    assert!(matches!(&dev[..], [RawAction::SetDeviceInfo(_)]));
    let ams = s.step(response(2005, 0, obj(vec![("canvas_info", obj(vec![]))])));
    assert!(matches!(&ams[..], [RawAction::SetCanvas(_), RawAction::StateChanged]));
    assert!(s.step(response(2005, 0, obj(vec![]))).is_empty());
    assert!(s.step(response(7, 0, obj(vec![]))).is_empty());
}

#[test]
fn commands_and_endings() {
    let mut s = MqttRawClient::new_session("P", "c", METHODS);
    let cmd = s.step(RawEvent::Command { id: 9, method: 1234, params: None });
    match &cmd[..] {
        [RawAction::Publish { payload, at_least_once: true, .. }] => {
            assert_eq!(payload.get("id"), Some(&JsonValue::UInt(9)));
            assert_eq!(payload.get("params"), None);
        }
        _ => panic!("expected a command"),
    }
    assert!(s.step(RawEvent::CommandLagged).is_empty());
    assert!(s.step(RawEvent::Shutdown(false)).is_empty());
    let stop = s.step(RawEvent::Shutdown(true));
    assert!(matches!(&stop[..], [RawAction::Disconnect, RawAction::SetConnected(false), RawAction::StateChanged, RawAction::Finish(RawFinish::Done)]));
    let closed = s.step(RawEvent::CommandClosed);
    assert!(matches!(closed.last(), Some(RawAction::Finish(RawFinish::Done))));
    let failed = s.step(RawEvent::PollError);
    assert!(matches!(failed.last(), Some(RawAction::Finish(RawFinish::Mqtt))));
}

fn is_ping(a: &RawAction) -> bool {
    matches!(a, RawAction::Publish { payload, at_least_once: false, .. }
        if payload.get("type") == Some(&JsonValue::Str("PING".to_string())))
}

#[test]
fn no_ping_over_a_run_until_registration_then_one_per_tick() {
    let mut s = MqttRawClient::new_session("P", "c", METHODS);
    let before = vec![
        RawEvent::HeartbeatTick,
        RawEvent::Command { id: 9, method: 1, params: None },
        publish("elegoo/P/c_req/register_response", obj(vec![("error", JsonValue::Str("busy".to_string()))])),
        publish("elegoo/P/api_status", obj(vec![("type", JsonValue::Str("PING".to_string()))])),
        RawEvent::HeartbeatTick,
        RawEvent::CommandLagged,
    ];
    for e in before {
        assert!(!s.step(e).iter().any(is_ping));
    }
    assert!(!s.registered);
    s.step(publish("elegoo/P/c_req/register_response", obj(vec![("error", JsonValue::Str("ok".to_string()))])));
    for _ in 0..3 {
        let beat = s.step(RawEvent::HeartbeatTick);
        assert_eq!(beat.len(), 1);
        assert!(is_ping(&beat[0]));
        s.step(RawEvent::CommandLagged);
    }
    assert!(s.registered);
}
