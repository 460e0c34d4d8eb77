use cc2_openwebui::api::logs::{delete_logs, get_logs, log_entry};
use cc2_openwebui::json::JsonValue;
use cc2_openwebui::notifications::payload::format_event;
use cc2_openwebui::printer::state::{filename_cuts_cleanly, truncate_filename, EventKind, PrinterEvent, PrinterState};

fn event(kind: EventKind, description: &str, snapshot: Option<&str>) -> PrinterEvent {
    PrinterEvent {
        timestamp: 1_700_000_000,
        kind,
        description: description.to_string(),
        snapshot: snapshot.map(|s| s.to_string()),
    }
}

#[test]
fn kind_names_follow_debug_form() {
    assert_eq!(EventKind::PrintStarted.log_name(), "PrintStarted");
    assert_eq!(EventKind::CommandLed(true).log_name(), "CommandLed(true)");
    assert_eq!(EventKind::CommandSpeedMode(3).log_name(), "CommandSpeedMode(3)");
    assert_eq!(EventKind::CommandFan("aux".to_string(), 255).log_name(), "CommandFan(\"aux\", 255)");
    assert_eq!(EventKind::ErrorOccurred("a \"b\"".to_string()).log_name(), "ErrorOccurred(\"a \\\"b\\\"\")");
    assert_eq!(EventKind::Loaded("PrintPaused".to_string()).log_name(), "PrintPaused");
    let debug = format!("{:?}", EventKind::CommandFan("box".to_string(), 7));
    assert_eq!(EventKind::CommandFan("box".to_string(), 7).log_name(), debug);
}

#[test]
fn payloads_by_kind() {
    let p = format_event(&event(EventKind::PrintStarted, "Print started: a", None));
    assert_eq!((p.title.as_str(), p.body.as_str(), p.color), ("Print Started", "Print started: a", 0x3498db));
    let p = format_event(&event(EventKind::FailurePauseThreshold, "x", None));
    assert_eq!((p.title.as_str(), p.color), ("Print Failure Confirmed", 0xe74c3c));
    let p = format_event(&event(EventKind::AutoPaused, "x", None));
    assert_eq!((p.title.as_str(), p.color), ("Print Auto-Paused", 0xe74c3c));
    let p = format_event(&event(EventKind::FailureNotifyThreshold, "x", None));
    assert_eq!((p.title.as_str(), p.color), ("Failure Risk Detected", 0xe67e22));
    let p = format_event(&event(EventKind::PrintFinished, "x", None));
    assert_eq!((p.title.as_str(), p.color), ("Print Finished", 0x2ecc71));
    let p = format_event(&event(EventKind::PrintPaused, "x", None));
    assert_eq!((p.title.as_str(), p.color), ("Print Paused", 0xf39c12));
    let p = format_event(&event(EventKind::Connected, "hello", None));
    assert_eq!((p.title.as_str(), p.body.as_str(), p.color), ("CC2 Monitor", "hello", 0x95a5a6));
}

#[test]
fn filename_truncation() {
    assert_eq!(truncate_filename("short.gcode"), "short.gcode");
    let exact = "a".repeat(40);
    assert_eq!(truncate_filename(&exact), exact);
    let long = format!("{}{}", "x".repeat(10), "y".repeat(31));
    assert_eq!(truncate_filename(&long), format!("...{}", &long[4..]));
    assert_eq!(truncate_filename(&long).len(), 40);
    let multi = format!("{}é{}", "a".repeat(10), "b".repeat(36));
    assert!(!filename_cuts_cleanly(&multi));
    assert!(filename_cuts_cleanly(&long));
}

#[test]
fn log_record_round_trip() {
    let e = event(EventKind::CommandLed(false), "LED off", Some("snap.jpg"));
    let record = e.log_record();
    let loaded = PrinterState::load_events_from_log(vec![Some(record)], 10);
    assert_eq!(loaded.len(), 1);
    assert_eq!(loaded[0].timestamp, 1_700_000_000);
    assert!(matches!(&loaded[0].kind, EventKind::Loaded(k) if k == "CommandLed(false)"));
    assert_eq!(loaded[0].description, "LED off");
    assert_eq!(loaded[0].snapshot.as_deref(), Some("snap.jpg"));
}

#[test]
fn load_events_skips_bad_lines_and_keeps_last() {
    let lines = vec![
        Some(event(EventKind::Connected, "one", None).log_record()),
        None,
        Some(JsonValue::Object(vec![("ts".to_string(), JsonValue::Str("x".to_string()))])),
        Some(event(EventKind::Disconnected, "two", None).log_record()),
        Some(JsonValue::UInt(5)),
        Some(event(EventKind::PrintStarted, "three", None).log_record()),
    ];
    let loaded = PrinterState::load_events_from_log(lines, 2);
    let msgs: Vec<&str> = loaded.iter().map(|e| e.description.as_str()).collect();
    assert_eq!(msgs, vec!["two", "three"]);
    assert!(loaded[0].snapshot.is_none());
}

#[test]
fn events_api_entries() {
    let entry = log_entry(&event(EventKind::Connected, "hi", Some("s.jpg")));
    assert_eq!(entry.get("timestamp"), Some(&JsonValue::UInt(1_700_000_000)));
    assert_eq!(entry.get("kind"), Some(&JsonValue::Str("Connected".to_string())));
    assert_eq!(entry.get("message"), Some(&JsonValue::Str("hi".to_string())));
    assert_eq!(entry.get("snapshot"), Some(&JsonValue::Str("s.jpg".to_string())));
    let plain = log_entry(&event(EventKind::Connected, "hi", None));
    assert_eq!(plain.get("snapshot"), None);

    let mut state = PrinterState::new();
    state.add_event(EventKind::RawConnected, "raw up".to_string());
    state.add_event(EventKind::WsConnected, "ws up".to_string());
    let logs = get_logs(&state);
    match logs.get("logs") {
        Some(JsonValue::Array(items)) => {
            assert_eq!(items.len(), 2);
            assert_eq!(items[1].get("kind"), Some(&JsonValue::Str("WsConnected".to_string())));
        }
        other => panic!("unexpected {:?}", other),
    }
    let answer = delete_logs(&mut state);
    assert!(state.events.is_empty());
    assert_eq!(answer.get("deleted"), Some(&JsonValue::Bool(true)));
}
