use vstd::prelude::*;
use vstd::string::*;
use crate::json::{JsonValue, JsonTree, tree_get, lemma_entries_map_small};
use crate::printer::state::{EventKind, PrinterEvent, PrinterState, opt_text};
use crate::text::{debug_text, debug_quoted, decimal, push_decimal};

verus! {

/// The name an event kind is logged under: the kind's `Debug` form, or the
/// name an event loaded from the log was logged under.
pub open spec fn kind_name(kind: EventKind) -> Seq<char> {
    match kind {
        EventKind::Connected => "Connected"@,
        EventKind::Disconnected => "Disconnected"@,
        EventKind::PrintStarted => "PrintStarted"@,
        EventKind::PrintPaused => "PrintPaused"@,
        EventKind::PrintResumed => "PrintResumed"@,
        EventKind::PrintStopped => "PrintStopped"@,
        EventKind::PrintFinished => "PrintFinished"@,
        EventKind::FailureDetected => "FailureDetected"@,
        EventKind::FailureNotifyThreshold => "FailureNotifyThreshold"@,
        EventKind::FailurePauseThreshold => "FailurePauseThreshold"@,
        EventKind::AutoPaused => "AutoPaused"@,
        EventKind::NotificationSent => "NotificationSent"@,
        EventKind::CommandPause => "CommandPause"@,
        EventKind::CommandResume => "CommandResume"@,
        EventKind::CommandStop => "CommandStop"@,
        EventKind::CommandLed(on) => "CommandLed("@ + (if on {
            "true"@
        } else {
            "false"@
        }) + ")"@,
        EventKind::CommandFan(fan, speed) => "CommandFan("@ + debug_text(fan@) + ", "@ + decimal(
            speed as nat,
        ) + ")"@,
        EventKind::CommandSpeedMode(mode) => "CommandSpeedMode("@ + decimal(mode as nat) + ")"@,
        EventKind::CommandStartPrint => "CommandStartPrint"@,
        EventKind::DetectionLogged => "DetectionLogged"@,
        EventKind::WsConnected => "WsConnected"@,
        EventKind::WsDisconnected => "WsDisconnected"@,
        EventKind::RawConnected => "RawConnected"@,
        EventKind::RawDisconnected => "RawDisconnected"@,
        EventKind::ErrorOccurred(message) => "ErrorOccurred("@ + debug_text(message@) + ")"@,
        EventKind::Loaded(name) => name@,
    }
}

impl EventKind {
    /// The name this kind is logged under.
    pub fn log_name(&self) -> (r: String)
        ensures
            r@ == kind_name(*self),
    {
        match self {
            EventKind::Connected => String::from_str("Connected"),
            EventKind::Disconnected => String::from_str("Disconnected"),
            EventKind::PrintStarted => String::from_str("PrintStarted"),
            EventKind::PrintPaused => String::from_str("PrintPaused"),
            EventKind::PrintResumed => String::from_str("PrintResumed"),
            EventKind::PrintStopped => String::from_str("PrintStopped"),
            EventKind::PrintFinished => String::from_str("PrintFinished"),
            EventKind::FailureDetected => String::from_str("FailureDetected"),
            EventKind::FailureNotifyThreshold => String::from_str("FailureNotifyThreshold"),
            EventKind::FailurePauseThreshold => String::from_str("FailurePauseThreshold"),
            EventKind::AutoPaused => String::from_str("AutoPaused"),
            EventKind::NotificationSent => String::from_str("NotificationSent"),
            EventKind::CommandPause => String::from_str("CommandPause"),
            EventKind::CommandResume => String::from_str("CommandResume"),
            EventKind::CommandStop => String::from_str("CommandStop"),
            EventKind::CommandLed(on) => {
                let mut r = String::from_str("CommandLed(");
                if *on {
                    r.append("true");
                } else {
                    r.append("false");
                }
                r.append(")");
                r
            },
            EventKind::CommandFan(fan, speed) => {
                let mut r = String::from_str("CommandFan(");
                let quoted = debug_quoted(fan.as_str());
                r.append(quoted.as_str());
                r.append(", ");
                push_decimal(&mut r, *speed as u64);
                r.append(")");
                r
            },
            EventKind::CommandSpeedMode(mode) => {
                let mut r = String::from_str("CommandSpeedMode(");
                push_decimal(&mut r, *mode as u64);
                r.append(")");
                r
            },
            EventKind::CommandStartPrint => String::from_str("CommandStartPrint"),
            EventKind::DetectionLogged => String::from_str("DetectionLogged"),
            EventKind::WsConnected => String::from_str("WsConnected"),
            EventKind::WsDisconnected => String::from_str("WsDisconnected"),
            EventKind::RawConnected => String::from_str("RawConnected"),
            EventKind::RawDisconnected => String::from_str("RawDisconnected"),
            EventKind::ErrorOccurred(message) => {
                let mut r = String::from_str("ErrorOccurred(");
                let quoted = debug_quoted(message.as_str());
                r.append(quoted.as_str());
                r.append(")");
                r
            },
            EventKind::Loaded(name) => name.clone(),
        }
    }
}

/// The fields of a log record: timestamp, kind name, message, snapshot.
pub type LogFields = (u64, Seq<char>, Seq<char>, Option<Seq<char>>);

/// The log record of an event: `ts`, `kind`, `msg`, and `snap` when the event
/// has a snapshot.
pub open spec fn log_record_tree(e: PrinterEvent) -> JsonTree {
    let fields = map![
        "ts"@ => JsonTree::UInt(e.timestamp),
        "kind"@ => JsonTree::Str(kind_name(e.kind)),
        "msg"@ => JsonTree::Str(e.description@),
    ];
    JsonTree::Object(
        match e.snapshot {
            Some(snap) => fields.insert("snap"@, JsonTree::Str(snap@)),
            None => fields,
        },
    )
}

/// What a log line holds, when it is a record: a non-negative integer `ts`,
/// string `kind` and `msg`, and `snap` when that is a string.
pub open spec fn record_fields(t: JsonTree) -> Option<LogFields> {
    match (tree_get(t, "ts"@), tree_get(t, "kind"@), tree_get(t, "msg"@)) {
        (Some(JsonTree::UInt(ts)), Some(JsonTree::Str(kind)), Some(JsonTree::Str(msg))) => Some(
            (
                ts,
                kind,
                msg,
                match tree_get(t, "snap"@) {
                    Some(JsonTree::Str(snap)) => Some(snap),
                    _ => None,
                },
            ),
        ),
        _ => None,
    }
}

/// Whether `e` is the event loaded from a record with fields `f`.
pub open spec fn loaded_event(e: PrinterEvent, f: LogFields) -> bool {
    &&& e.timestamp == f.0
    &&& e.kind is Loaded
    &&& e.kind->Loaded_0@ == f.1
    &&& e.description@ == f.2
    &&& opt_text(e.snapshot) == f.3
}

/// The records among parsed log lines, in order; lines that did not parse
/// are `None`.
pub open spec fn logged_records(lines: Seq<Option<JsonValue>>) -> Seq<LogFields>
    decreases lines.len(),
{
    if lines.len() == 0 {
        Seq::empty()
    } else {
        let earlier = logged_records(lines.drop_last());
        match lines.last() {
            Some(v) => match record_fields(v.tree()) {
                Some(f) => earlier.push(f),
                None => earlier,
            },
            None => earlier,
        }
    }
}

/// Whether `es` are the events loaded from the records `fs`, one for one.
pub open spec fn loaded_events(es: Seq<PrinterEvent>, fs: Seq<LogFields>) -> bool {
    &&& es.len() == fs.len()
    &&& forall|i: int| 0 <= i < es.len() ==> loaded_event(#[trigger] es[i], fs[i])
}

/// The last `n` records of `fs` (all of them when there are fewer).
pub open spec fn last_records(fs: Seq<LogFields>, n: nat) -> Seq<LogFields> {
    if fs.len() <= n {
        fs
    } else {
        fs.skip(fs.len() - n)
    }
}

/// The event a log line records.
fn record_event(v: &JsonValue) -> (r: Option<PrinterEvent>)
    ensures
        match r {
            Some(e) => record_fields(v.tree()) matches Some(f) && loaded_event(e, f),
            None => record_fields(v.tree()) is None,
        },
{
    let ts = match v.get("ts") {
        Some(t) => match t.as_u64() {
            Some(n) => n,
            None => return None,
        },
        None => return None,
    };
    let kind = match v.get("kind") {
        Some(k) => match k.as_str() {
            Some(text) => text.to_owned(),
            None => return None,
        },
        None => return None,
    };
    let msg = match v.get("msg") {
        Some(m) => match m.as_str() {
            Some(text) => text.to_owned(),
            None => return None,
        },
        None => return None,
    };
    let snapshot = match v.get("snap") {
        Some(sv) => match sv.as_str() {
            Some(text) => Some(text.to_owned()),
            None => None,
        },
        None => None,
    };
    Some(
        PrinterEvent { timestamp: ts, kind: EventKind::Loaded(kind), description: msg, snapshot },
    )
}

impl PrinterState {
    /// The last `limit` events of the event log, from its lines as parsed.
    pub fn load_events_from_log(lines: Vec<Option<JsonValue>>, limit: usize) -> (r: Vec<
        PrinterEvent,
    >)
        ensures
            loaded_events(r@, last_records(logged_records(lines@), limit as nat)),
    {
        let mut all: Vec<PrinterEvent> = Vec::new();
        let n = lines.len();
        let mut i: usize = 0;
        while i < n
            invariant
                n == lines@.len(),
                i <= n,
                loaded_events(all@, logged_records(lines@.take(i as int))),
            decreases n - i,
        {
            assert(lines@.take(i + 1).drop_last() =~= lines@.take(i as int));
            assert(lines@.take(i + 1).last() == lines@[i as int]);
            match &lines[i] {
                Some(v) => match record_event(v) {
                    Some(e) => {
                        all.push(e);
                    },
                    None => {},
                },
                None => {},
            }
            i = i + 1;
        }
        assert(lines@.take(n as int) =~= lines@);
        let ghost fs = logged_records(lines@);
        while all.len() > limit
            invariant
                fs == logged_records(lines@),
                all@.len() >= limit ==> loaded_events(all@, fs.skip(fs.len() - all@.len())),
                all@.len() < limit ==> loaded_events(all@, fs),
                all@.len() <= fs.len(),
            decreases all.len(),
        {
            let ghost before = all@;
            all.remove(0);
            assert(fs.skip(fs.len() - before.len()).drop_first() =~= fs.skip(
                fs.len() - all@.len(),
            ));
        }
        assert(fs.skip(0) =~= fs);
        all
    }
}

impl PrinterEvent {
    /// The record this event is written to the event log as.
    pub fn log_record(&self) -> (r: JsonValue)
        ensures
            r.tree() == log_record_tree(*self),
    {
        let mut entries: Vec<(String, JsonValue)> = Vec::new();
        entries.push((String::from_str("ts"), JsonValue::UInt(self.timestamp)));
        entries.push((String::from_str("kind"), JsonValue::Str(self.kind.log_name())));
        entries.push((String::from_str("msg"), JsonValue::Str(self.description.clone())));
        match &self.snapshot {
            Some(snap) => {
                entries.push((String::from_str("snap"), JsonValue::Str(snap.clone())));
            },
            None => {},
        }
        proof {
            lemma_entries_map_small(entries@);
        }
        JsonValue::Object(entries)
    }
}

/// Reading back a record the log was written with gives the event's
/// timestamp, kind name, description and snapshot.
pub proof fn law_log_record_roundtrip(e: PrinterEvent)
    ensures
        record_fields(log_record_tree(e)) == Some(
            (e.timestamp, kind_name(e.kind), e.description@, opt_text(e.snapshot)),
        ),
{
    reveal_strlit("ts");
    reveal_strlit("kind");
    reveal_strlit("msg");
    reveal_strlit("snap");
    let t = log_record_tree(e);
    assert("ts"@.len() == 2 && "msg"@.len() == 3 && "kind"@.len() == 4 && "snap"@.len() == 4);
    assert("kind"@[0] == 'k' && "snap"@[0] == 's');
    assert("ts"@ != "kind"@ && "ts"@ != "msg"@ && "ts"@ != "snap"@);
    assert("kind"@ != "msg"@ && "kind"@ != "snap"@ && "msg"@ != "snap"@);
    assert(tree_get(t, "ts"@) == Some(JsonTree::UInt(e.timestamp)));
    assert(tree_get(t, "kind"@) == Some(JsonTree::Str(kind_name(e.kind))));
    assert(tree_get(t, "msg"@) == Some(JsonTree::Str(e.description@)));
    match e.snapshot {
        Some(snap) => {
            assert(tree_get(t, "snap"@) == Some(JsonTree::Str(snap@)));
        },
        None => {
            assert(tree_get(t, "snap"@) is None);
        },
    }
}

} // verus!
