use cc2_openwebui::json::{recursive_merge, JsonValue};
use cc2_openwebui::printer::client_raw::{MethodIds, MqttRawClient, RawAction, RawEvent};
use cc2_openwebui::printer::state::{check_status, PrintState, PrinterState, TransitionOutcome};

const METHODS: MethodIds = MethodIds { get_full_status: 1002, get_device_info: 1001, get_ams_info: 2005, status_push: 6000 };

fn obj(entries: Vec<(&str, JsonValue)>) -> JsonValue {
    JsonValue::Object(entries.into_iter().map(|(k, v)| (k.to_string(), v)).collect())
}

fn text(s: &str) -> JsonValue {
    JsonValue::Str(s.to_string())
}

fn status(state: &str, filename: &str) -> JsonValue {
    obj(vec![("print_status", obj(vec![("state", text(state)), ("filename", text(filename))]))])
}

#[test]
fn new_state_holds_default_status() {
    let state = PrinterState::new();
    assert_eq!(state.full, status("", ""));
    assert_eq!(state.print_state(), PrintState::Idle);
}

#[test]
fn merge_delta_rejects_non_string_state() {
    let mut state = PrinterState::new();
    state.full = status("printing", "a.gcode");
    let delta = obj(vec![("print_status", obj(vec![("state", JsonValue::UInt(5))]))]);
    let outcome = state.merge_delta(delta);
    assert_eq!(outcome, TransitionOutcome::StatusRejected);
    assert_eq!(state.full, status("printing", "a.gcode"));
    assert_eq!(state.print_state(), PrintState::Printing);
    assert!(state.events.is_empty());
}

#[test]
fn merge_delta_rejects_non_object_print_status() {
    let mut state = PrinterState::new();
    state.full = status("paused", "");
    let outcome = state.merge_delta(obj(vec![("print_status", JsonValue::Null)]));
    assert_eq!(outcome, TransitionOutcome::StatusRejected);
    assert_eq!(state.full, status("paused", ""));
}

#[test]
fn seed_rejects_status_that_does_not_fit() {
    let mut state = PrinterState::new();
    state.full = status("printing", "a.gcode");
    assert_eq!(state.seed(JsonValue::UInt(3)), TransitionOutcome::StatusRejected);
    let bad = obj(vec![("print_status", obj(vec![("filename", JsonValue::Bool(true))]))]);
    assert_eq!(state.seed(bad), TransitionOutcome::StatusRejected);
    assert_eq!(state.full, status("printing", "a.gcode"));
    assert!(state.events.is_empty());
}

#[test]
fn status_check_cases() {
    assert!(check_status(&status("printing", "x")));
    assert!(check_status(&obj(vec![])));
    assert!(check_status(&obj(vec![("print_status", obj(vec![]))])));
    assert!(!check_status(&JsonValue::Array(vec![])));
    assert!(!check_status(&obj(vec![("print_status", text("idle"))])));
}

#[test]
fn response_with_bad_status_seeds_nothing() {
    let mut s = MqttRawClient::new_session("P1", "web", METHODS);
    let payload = obj(vec![
        ("method", JsonValue::UInt(1002)),
        (
            "result",
            obj(vec![
                ("error_code", JsonValue::UInt(0)),
                ("data", obj(vec![("print_status", obj(vec![("state", JsonValue::UInt(1))]))])),
            ]),
        ),
    ]);
    let actions = s.step(RawEvent::Publish { topic: "elegoo/P1/web/api_response".to_string(), payload: Some(payload) });
    assert!(actions.is_empty());
    let device = obj(vec![
        ("method", JsonValue::UInt(1001)),
        ("result", obj(vec![("error_code", JsonValue::UInt(0)), ("data", obj(vec![("machine_model", JsonValue::UInt(2))]))])),
    ]);
    let actions = s.step(RawEvent::Publish { topic: "elegoo/P1/web/api_response".to_string(), payload: Some(device) });
    assert!(actions.is_empty());
}

#[test]
fn opening_subscribes_then_registers() {
    let s = MqttRawClient::new_session("P1", "web", METHODS);
    let actions = s.opening("web");
    assert_eq!(actions.len(), 4);
    let expected = [
        ("elegoo/P1/web_req/register_response", true),
        ("elegoo/P1/web/api_response", true),
        ("elegoo/P1/api_status", false),
    ];
    for (a, (t, q)) in actions.iter().zip(expected.iter()) {
        match a {
            RawAction::Subscribe { topic, at_least_once } => {
                assert_eq!(topic, t);
                assert_eq!(at_least_once, q);
            }
            _ => panic!("expected a subscription"),
        }
    }
    match &actions[3] {
        RawAction::Publish { topic, payload, at_least_once } => {
            assert_eq!(topic, "elegoo/P1/api_register");
            assert!(*at_least_once);
            assert_eq!(payload, &obj(vec![("client_id", text("web")), ("request_id", text("web_req"))]));
        }
        _ => panic!("expected the registration"),
    }
}

#[test]
fn merging_a_delta_twice_is_merging_once() {
    let base = status("printing", "a.gcode");
    let delta = obj(vec![("print_status", obj(vec![("state", text("paused"))]))]);
    let again = obj(vec![("print_status", obj(vec![("state", text("paused"))]))]);
    let once = recursive_merge(base, delta);
    let twice = recursive_merge(once.deep_copy(), again);
    assert_eq!(once, twice);
    assert_eq!(recursive_merge(obj(vec![]), status("idle", "")), status("idle", ""));
    assert_eq!(recursive_merge(status("idle", "b"), status("idle", "b")), status("idle", "b"));
}
