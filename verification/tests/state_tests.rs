use cc2_openwebui::json::{recursive_merge, JsonValue};
use cc2_openwebui::printer::state::{EventKind, PrintState, PrinterState, TransitionOutcome};

fn obj(entries: Vec<(&str, JsonValue)>) -> JsonValue {
    JsonValue::Object(entries.into_iter().map(|(k, v)| (k.to_string(), v)).collect())
}

fn float(text: &str) -> JsonValue {
    JsonValue::Float(text.to_string())
}

fn text(s: &str) -> JsonValue {
    JsonValue::Str(s.to_string())
}

fn at<'a>(v: &'a JsonValue, path: &[&str]) -> &'a JsonValue {
    let mut cur = v;
    for key in path {
        cur = cur.get(key).expect("missing key");
    }
    cur
}

fn status(state: &str, filename: &str) -> JsonValue {
    obj(vec![("print_status", obj(vec![("state", text(state)), ("filename", text(filename))]))])
}

#[test]
fn test_recursive_merge_preserves_nested_fields() {
    let base = obj(vec![
        (
            "fans",
            obj(vec![
                ("aux_fan", obj(vec![("speed", float("100.0"))])),
                ("fan", obj(vec![("speed", float("50.0"))])),
                ("box_fan", obj(vec![("speed", float("0.0"))])),
            ]),
        ),
        ("extruder", obj(vec![("temperature", float("200.0")), ("target", JsonValue::UInt(210))])),
    ]);
    let delta = obj(vec![("fans", obj(vec![("fan", obj(vec![("speed", float("255.0"))]))]))]);
    let merged = recursive_merge(base, delta);
    assert_eq!(at(&merged, &["fans", "fan", "speed"]), &float("255.0"));
    assert_eq!(at(&merged, &["fans", "aux_fan", "speed"]), &float("100.0"));
    assert_eq!(at(&merged, &["fans", "box_fan", "speed"]), &float("0.0"));
    assert_eq!(at(&merged, &["extruder", "temperature"]), &float("200.0"));
}

#[test]
fn test_recursive_merge_adds_new_keys() {
    let base = obj(vec![("fans", obj(vec![("fan", obj(vec![("speed", float("50.0"))]))]))]);
    let delta = obj(vec![
        ("fans", obj(vec![("aux_fan", obj(vec![("speed", float("100.0"))]))])),
        ("led", obj(vec![("status", JsonValue::UInt(1))])),
    ]);
    let merged = recursive_merge(base, delta);
    assert_eq!(at(&merged, &["fans", "fan", "speed"]), &float("50.0"));
    assert_eq!(at(&merged, &["fans", "aux_fan", "speed"]), &float("100.0"));
    assert_eq!(at(&merged, &["led", "status"]), &JsonValue::UInt(1));
}

#[test]
fn test_recursive_merge_overwrites_scalars() {
    let base = obj(vec![(
        "machine_status",
        obj(vec![("status", JsonValue::UInt(1)), ("progress", JsonValue::UInt(50))]),
    )]);
    let delta = obj(vec![(
        "machine_status",
        obj(vec![("status", JsonValue::UInt(2)), ("progress", JsonValue::UInt(75))]),
    )]);
    let merged = recursive_merge(base, delta);
    assert_eq!(at(&merged, &["machine_status", "status"]), &JsonValue::UInt(2));
    assert_eq!(at(&merged, &["machine_status", "progress"]), &JsonValue::UInt(75));
}

#[test]
fn test_print_state_idle() {
    let mut state = PrinterState::new();
    state.full = status("", "");
    assert!(matches!(state.print_state(), PrintState::Idle));
}

#[test]
fn test_print_state_printing() {
    let mut state = PrinterState::new();
    state.full = status("printing", "");
    assert!(matches!(state.print_state(), PrintState::Printing));
}

#[test]
fn test_print_state_paused() {
    let mut state = PrinterState::new();
    state.full = status("paused", "");
    assert!(matches!(state.print_state(), PrintState::Paused));
}

#[test]
fn test_merge_delta_updates_state() {
    let mut state = PrinterState::new();
    state.full = status("printing", "test.gcode");
    state.merge_delta(obj(vec![("print_status", obj(vec![("state", text("paused"))]))]));
    assert!(matches!(state.print_state(), PrintState::Paused));
}

#[test]
fn test_events_capped_at_100() {
    let mut state = PrinterState::new();
    for i in 0..105 {
        state.add_event(EventKind::Connected, format!("event {}", i));
    }
    assert_eq!(state.events.len(), 100);
    assert_eq!(state.events[0].description, "event 5");
}

#[test]
fn merge_delta_keeps_untouched_filename_and_records_pause() {
    let mut state = PrinterState::new();
    state.full = status("printing", "benchy.gcode");
    let outcome = state.merge_delta(obj(vec![("print_status", obj(vec![("state", text("paused"))]))]));
    assert_eq!(outcome, TransitionOutcome::EventAdded);
    assert_eq!(at(&state.full, &["print_status", "filename"]), &text("benchy.gcode"));
    assert_eq!(state.events.len(), 1);
    assert!(matches!(state.events[0].kind, EventKind::PrintPaused));
    assert_eq!(state.events[0].description, "Print paused");
}

#[test]
fn merge_delta_without_state_change_records_nothing() {
    let mut state = PrinterState::new();
    state.full = status("printing", "a.gcode");
    let outcome = state.merge_delta(obj(vec![("fans", obj(vec![("fan", float("1.0"))]))]));
    assert_eq!(outcome, TransitionOutcome::NoEvent);
    assert!(state.events.is_empty());
}

#[test]
fn seed_start_records_truncated_filename() {
    let mut state = PrinterState::new();
    let long_name = "a".repeat(50) + ".gcode";
    let outcome = state.seed(status("printing", &long_name));
    assert_eq!(outcome, TransitionOutcome::EventAdded);
    assert!(matches!(state.events[0].kind, EventKind::PrintStarted));
    let expected = format!("Print started: ...{}", &long_name[long_name.len() - 37..]);
    assert_eq!(state.events[0].description, expected);
}

#[test]
fn seed_refuses_filename_cut_inside_a_character() {
    let mut state = PrinterState::new();
    // 'é' takes two bytes; the cut 37 bytes from the end falls inside it.
    let name = format!("{}é{}", "a".repeat(10), "b".repeat(36));
    assert!(!name.is_char_boundary(name.len() - 37));
    let outcome = state.seed(status("printing", &name));
    assert_eq!(outcome, TransitionOutcome::FilenameNotCharBoundary);
    assert!(state.events.is_empty());
    assert!(matches!(state.print_state(), PrintState::Printing));
}

#[test]
fn seed_keeps_canvas_when_report_has_none() {
    let mut state = PrinterState::new();
    state.full = status("", "");
    state.set_canvas_info(obj(vec![("active", JsonValue::UInt(1))]));
    state.seed(status("", ""));
    assert_eq!(at(&state.full, &["canvas_info", "active"]), &JsonValue::UInt(1));
    let mut with_canvas = status("", "");
    with_canvas = match with_canvas {
        JsonValue::Object(mut e) => {
            e.push(("canvas_info".to_string(), obj(vec![("active", JsonValue::UInt(2))])));
            JsonValue::Object(e)
        }
        other => other,
    };
    state.seed(with_canvas);
    assert_eq!(at(&state.full, &["canvas_info", "active"]), &JsonValue::UInt(2));
}

#[test]
fn transitions_record_expected_events() {
    let mut state = PrinterState::new();
    state.seed(status("printing", "x.gcode"));
    state.merge_delta(obj(vec![("print_status", obj(vec![("state", text("paused"))]))]));
    state.merge_delta(obj(vec![("print_status", obj(vec![("state", text("printing"))]))]));
    state.merge_delta(obj(vec![("print_status", obj(vec![("state", text("idle"))]))]));
    let descriptions: Vec<&str> = state.events.iter().map(|e| e.description.as_str()).collect();
    assert_eq!(
        descriptions,
        vec!["Print started: x.gcode", "Print paused", "Print resumed", "Print finished"]
    );
    state.merge_delta(obj(vec![("print_status", obj(vec![("state", text("printing"))]))]));
    state.merge_delta(obj(vec![("print_status", obj(vec![("state", text("paused"))]))]));
    state.merge_delta(obj(vec![("print_status", obj(vec![("state", text("cancelled"))]))]));
    assert_eq!(state.events.last().unwrap().description, "Print stopped");
    assert!(matches!(state.events.last().unwrap().kind, EventKind::PrintStopped));
}

#[test]
fn idle_to_paused_records_nothing() {
    let mut state = PrinterState::new();
    let outcome = state.seed(status("paused", ""));
    assert_eq!(outcome, TransitionOutcome::NoEvent);
    assert!(state.events.is_empty());
}

#[test]
fn add_event_with_snapshot_keeps_snapshot() {
    let mut state = PrinterState::new();
    state.add_event_with_snapshot(
        EventKind::FailureDetected,
        "spaghetti".to_string(),
        Some("snapshots/x.jpg".to_string()),
    );
    assert_eq!(state.events[0].snapshot.as_deref(), Some("snapshots/x.jpg"));
    assert!(state.events[0].timestamp > 0);
}

#[test]
fn merge_over_scalar_takes_delta() {
    let merged = recursive_merge(JsonValue::UInt(3), obj(vec![("a", JsonValue::Null)]));
    assert_eq!(merged, obj(vec![("a", JsonValue::Null)]));
    let merged = recursive_merge(obj(vec![("a", JsonValue::Null)]), JsonValue::Bool(true));
    assert_eq!(merged, JsonValue::Bool(true));
}

#[test]
fn well_formedness_check_finds_duplicate_keys() {
    assert!(obj(vec![("a", JsonValue::Null), ("b", obj(vec![("c", JsonValue::Null)]))]).check_well_formed());
    assert!(!obj(vec![("a", JsonValue::Null), ("a", JsonValue::Null)]).check_well_formed());
    assert!(!JsonValue::Array(vec![obj(vec![("x", JsonValue::Null), ("x", JsonValue::UInt(1))])]).check_well_formed());
}
