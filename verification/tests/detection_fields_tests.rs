use cc2_openwebui::api::detection::{detection_frame, snapshot_proxy_url};
use cc2_openwebui::detection::obico::{check_obico_status, detection_fields, obico_response_fields, DetectionFields};
use cc2_openwebui::error::DetectionError;
use cc2_openwebui::json::JsonValue;

fn obj(entries: Vec<(&str, JsonValue)>) -> JsonValue {
    JsonValue::Object(entries.into_iter().map(|(k, v)| (k.to_string(), v)).collect())
}

fn f(t: &str) -> JsonValue {
    JsonValue::Float(t.to_string())
}

fn u(n: u64) -> JsonValue {
    JsonValue::UInt(n)
}

fn s(t: &str) -> JsonValue {
    JsonValue::Str(t.to_string())
}

#[test]
fn center_box_format() {
    let det = JsonValue::Array(vec![s("failure"), f("0.8"), JsonValue::Array(vec![u(100), u(50), u(20), u(10)])]);
    match detection_fields(&det) {
        Some(DetectionFields::CenterBox { confidence, cx, cy, w, h }) => {
            assert_eq!((confidence, cx, cy, w, h), (f("0.8"), u(100), u(50), u(20), u(10)));
        }
        _ => panic!("expected a centre box"),
    }
    let short = JsonValue::Array(vec![s("failure"), f("0.8"), JsonValue::Array(vec![u(1), u(2), u(3)])]);
    assert!(detection_fields(&short).is_none());
    let text_conf = JsonValue::Array(vec![s("failure"), s("high"), JsonValue::Array(vec![u(1), u(2), u(3), u(4)])]);
    assert!(detection_fields(&text_conf).is_none());
}

#[test]
fn corners_take_first_five_numbers() {
    let det = JsonValue::Array(vec![u(1), s("x"), u(2), u(3), JsonValue::Null, u(4), f("0.5"), u(9)]);
    match detection_fields(&det) {
        Some(DetectionFields::Corners { x1, y1, x2, y2, confidence }) => {
            assert_eq!((x1, y1, x2, y2, confidence), (u(1), u(2), u(3), u(4), f("0.5")));
        }
        _ => panic!("expected corners"),
    }
    let four = JsonValue::Array(vec![u(1), u(2), u(3), u(4), s("x")]);
    assert!(detection_fields(&four).is_none());
}

fn keyed(extra: Vec<(&str, JsonValue)>) -> JsonValue {
    let mut entries = vec![("x1", u(0)), ("y1", u(0)), ("x2", u(1)), ("y2", u(1))];
    entries.extend(extra);
    obj(entries)
}

#[test]
fn keyed_confidence_falls_back_to_score_only_when_absent() {
    match detection_fields(&keyed(vec![("score", f("0.7"))])) {
        Some(DetectionFields::Keyed { x2, confidence, .. }) => {
            assert_eq!(x2, u(1));
            assert_eq!(confidence, Some(f("0.7")));
        }
        _ => panic!("expected keyed"),
    }
    match detection_fields(&keyed(vec![("confidence", JsonValue::Null), ("score", f("0.7"))])) {
        Some(DetectionFields::Keyed { confidence, .. }) => assert_eq!(confidence, None),
        _ => panic!("expected keyed"),
    }
    match detection_fields(&keyed(vec![])) {
        Some(DetectionFields::Keyed { confidence, .. }) => assert_eq!(confidence, None),
        _ => panic!("expected keyed"),
    }
    assert!(detection_fields(&obj(vec![("x1", u(0)), ("y1", u(0)), ("x2", s("1")), ("y2", u(1))])).is_none());
    assert!(detection_fields(&s("box")).is_none());
}

#[test]
fn response_fields_and_reported_score() {
    let resp = obj(vec![
        ("detections", JsonValue::Array(vec![JsonValue::Array(vec![u(1), u(2), u(3), u(4), u(5)]), s("junk")])),
        ("fail", s("n/a")),
        ("score", f("0.3")),
    ]);
    let (entries, score) = obico_response_fields(&resp);
    assert_eq!(entries.len(), 2);
    assert!(matches!(entries[0], Some(DetectionFields::Corners { .. })));
    assert!(entries[1].is_none());
    assert_eq!(score, None);
    let (entries, score) = obico_response_fields(&obj(vec![("detections", s("none")), ("score", f("0.3"))]));
    assert!(entries.is_empty());
    assert_eq!(score, Some(f("0.3")));
    let (_, score) = obico_response_fields(&obj(vec![("fail", u(1)), ("score", f("0.3"))]));
    assert_eq!(score, Some(u(1)));
}

#[test]
fn on_demand_detection_inputs() {
    assert_eq!(snapshot_proxy_url(8484), "http://127.0.0.1:8484/api/camera/snapshot");
    assert_eq!(detection_frame(Some(vec![1, 2])).unwrap(), vec![1, 2]);
    match detection_frame(None) {
        Err(DetectionError::ObicoFailed(m)) => assert_eq!(m, "no camera frame available"),
        _ => panic!("expected the missing frame error"),
    }
}

#[test]
fn obico_status_and_numbers() {
    assert!(check_obico_status(200, "200 OK").is_ok());
    assert!(check_obico_status(299, "299").is_ok());
    match check_obico_status(503, "503 Service Unavailable") {
        Err(DetectionError::ObicoFailed(m)) => assert_eq!(m, "Obico returned 503 Service Unavailable"),
        _ => panic!("expected a failure"),
    }
    assert_eq!(JsonValue::number_from_parts(Some(7), Some(7), "7".to_string()), u(7));
    assert_eq!(JsonValue::number_from_parts(None, Some(-3), "-3".to_string()), JsonValue::Int(-3));
    assert_eq!(JsonValue::number_from_parts(None, None, "0.5".to_string()), f("0.5"));
}
