use vstd::prelude::*;
use vstd::string::*;
use vstd::utf8::*;
use crate::json::{JsonValue, JsonTree, tree_get, path_get, recursive_merge, merge_tree, keeps_path, law_merge_preserves_untouched, lemma_entries_map_small};
use crate::text::str_equal;

verus! {

/// How many events the state keeps; older ones are dropped.
pub const MAX_EVENTS: usize = 100;

/// What the printer is doing, as its status reports it.
#[derive(Debug, Clone, Copy, PartialEq, Eq, Structural)]
pub enum PrintState {
    Idle,
    Printing,
    Paused,
}

/// The kinds of events the monitor records.
#[derive(Debug, Clone)]
pub enum EventKind {
    Connected,
    Disconnected,
    PrintStarted,
    PrintPaused,
    PrintResumed,
    PrintStopped,
    PrintFinished,
    FailureDetected,
    FailureNotifyThreshold,
    FailurePauseThreshold,
    AutoPaused,
    NotificationSent,
    CommandPause,
    CommandResume,
    CommandStop,
    CommandLed(bool),
    CommandFan(String, u8),
    CommandSpeedMode(u8),
    CommandStartPrint,
    DetectionLogged,
    WsConnected,
    WsDisconnected,
    RawConnected,
    RawDisconnected,
    ErrorOccurred(String),
    /// Event loaded from the persisted log on startup; the text is the kind name it was logged under.
    Loaded(String),
}

/// One recorded event; `timestamp` counts seconds since the Unix epoch.
#[derive(Debug, Clone)]
pub struct PrinterEvent {
    pub timestamp: u64,
    pub kind: EventKind,
    pub description: String,
    pub snapshot: Option<String>,
}

/// The printer's state as the monitor tracks it. `full` is the printer's
/// status document; `device_info` its device description when known.
pub struct PrinterState {
    pub full: JsonValue,
    pub device_info: Option<JsonValue>,
    pub printer_ip: String,
    /// True when both raw (port 1883) and ws (port 9001) clients are connected.
    pub connected: bool,
    pub connected_raw: bool,
    pub connected_ws: bool,
    pub latest_detection_ts: u64,
    pub events: Vec<PrinterEvent>,
    pub files: Vec<JsonValue>,
}

/// What a status change led to.
#[derive(Debug, Clone, Copy, PartialEq, Eq, Structural)]
pub enum TransitionOutcome {
    /// The print state did not change in a way that is recorded.
    NoEvent,
    /// An event was appended to `events`.
    EventAdded,
    /// A print started whose file name cannot be shortened at a character
    /// boundary; no event was recorded.
    FilenameNotCharBoundary,
    /// The new status document does not fit the status type; the old one
    /// was kept and no event was recorded.
    StatusRejected,
}

/// Whether `key` of an object is missing or holds a string.
pub open spec fn str_field_ok(t: JsonTree, key: Seq<char>) -> bool {
    match tree_get(t, key) {
        Some(v) => v is Str,
        None => true,
    }
}

/// Whether a document fits the printer status type as far as the library
/// reads it: an object whose `print_status`, when present, is an object
/// whose `state` and `filename`, when present, are strings.
pub open spec fn status_ok(t: JsonTree) -> bool {
    &&& t is Object
    &&& match tree_get(t, "print_status"@) {
        Some(ps) => ps is Object && str_field_ok(ps, "state"@) && str_field_ok(ps, "filename"@),
        None => true,
    }
}

/// Whether a document fits the device description type: an object whose
/// `machine_model`, when present, is a string.
pub open spec fn device_ok(t: JsonTree) -> bool {
    t is Object && str_field_ok(t, "machine_model"@)
}

/// Decides `str_field_ok`.
fn check_str_field(v: &JsonValue, key: &str) -> (r: bool)
    ensures
        r == str_field_ok(v.tree(), key@),
{
    match v.get(key) {
        Some(f) => f.as_str().is_some(),
        None => true,
    }
}

/// Decides `status_ok`.
pub fn check_status(v: &JsonValue) -> (r: bool)
    ensures
        r == status_ok(v.tree()),
{
    if !v.is_object() {
        return false;
    }
    match v.get("print_status") {
        Some(ps) => ps.is_object() && check_str_field(ps, "state") && check_str_field(ps, "filename"),
        None => true,
    }
}

/// Decides `device_ok`.
pub fn check_device(v: &JsonValue) -> (r: bool)
    ensures
        r == device_ok(v.tree()),
{
    v.is_object() && check_str_field(v, "machine_model")
}

/// The default status document: an idle printer with no file.
pub open spec fn default_status() -> JsonTree {
    JsonTree::Object(
        map![
            "print_status"@ => JsonTree::Object(
                map![
                    "state"@ => JsonTree::Str(Seq::empty()),
                    "filename"@ => JsonTree::Str(Seq::empty()),
                ],
            ),
        ],
    )
}

/// The text of an optional string.
pub open spec fn opt_text(o: Option<String>) -> Option<Seq<char>> {
    match o {
        Some(s) => Some(s@),
        None => None,
    }
}

/// Whether `e` is an event of `kind` with that description and snapshot.
pub open spec fn event_holds(
    e: PrinterEvent,
    kind: EventKind,
    description: Seq<char>,
    snapshot: Option<Seq<char>>,
) -> bool {
    &&& e.kind == kind
    &&& e.description@ == description
    &&& opt_text(e.snapshot) == snapshot
}

/// `s` with its oldest event dropped when it holds more than `MAX_EVENTS`.
pub open spec fn capped(s: Seq<PrinterEvent>) -> Seq<PrinterEvent> {
    if s.len() > MAX_EVENTS {
        s.drop_first()
    } else {
        s
    }
}

/// Whether `new` is `old` with one event of that kind, description and
/// snapshot appended, and the oldest dropped past the cap.
pub open spec fn event_appended(
    old: Seq<PrinterEvent>,
    new: Seq<PrinterEvent>,
    kind: EventKind,
    description: Seq<char>,
    snapshot: Option<Seq<char>>,
) -> bool {
    &&& new.len() > 0
    &&& event_holds(new.last(), kind, description, snapshot)
    &&& new == capped(old.push(new.last()))
}

impl PrinterState {
    /// The fields besides `full` and `events` agree.
    pub open spec fn same_besides_status(self, other: PrinterState) -> bool {
        &&& self.device_info == other.device_info
        &&& self.printer_ip == other.printer_ip
        &&& self.connected == other.connected
        &&& self.connected_raw == other.connected_raw
        &&& self.connected_ws == other.connected_ws
        &&& self.latest_detection_ts == other.latest_detection_ts
        &&& self.files == other.files
    }
}

/// The time elapsed since the Unix epoch (`std::time::UNIX_EPOCH.elapsed()`);
/// `None` when the clock reads earlier than the epoch. Nothing is stated of
/// it: it is the machine's clock.
#[verifier::external_body]
fn since_epoch() -> Option<std::time::Duration> {
    std::time::UNIX_EPOCH.elapsed().ok()
}

/// The whole seconds of a duration (`Duration::as_secs`). Nothing is
/// stated of it: a duration is opaque here.
#[verifier::external_body]
fn duration_secs(d: &std::time::Duration) -> u64 {
    d.as_secs()
}

/// The current time as whole seconds since the Unix epoch; 0 when the
/// clock reads earlier than the epoch.
fn unix_time_now() -> u64 {
    match since_epoch() {
        Some(d) => duration_secs(&d),
        None => 0,
    }
}

impl PrinterState {
    /// A state with the default status document and no events.
    pub fn new() -> (s: Self)
        ensures
            s.full.tree() == default_status(),
            status_ok(s.full.tree()),
            s.full.well_formed(),
            s.device_info is None,
            s.printer_ip@ == Seq::<char>::empty(),
            !s.connected && !s.connected_raw && !s.connected_ws,
            s.latest_detection_ts == 0,
            s.events@ == Seq::<PrinterEvent>::empty(),
            s.files@ == Seq::<JsonValue>::empty(),
    {
        let mut ps: Vec<(String, JsonValue)> = Vec::new();
        ps.push((String::from_str("state"), JsonValue::Str(String::new())));
        ps.push((String::from_str("filename"), JsonValue::Str(String::new())));
        proof {
            lemma_entries_map_small(ps@);
            reveal_strlit("state");
            reveal_strlit("filename");
            assert(ps@[0].0@ == "state"@);
            assert(ps@[1].0@ == "filename"@);
            assert(ps@[0].0@.len() != ps@[1].0@.len());
            assert(crate::json::keys_distinct(ps@));
            assert(ps@.drop_last().drop_last() =~= Seq::<(String, JsonValue)>::empty());
            reveal_with_fuel(crate::json::entries_well_formed, 3);
            assert(crate::json::entries_well_formed(ps@));
        }
        let mut top: Vec<(String, JsonValue)> = Vec::new();
        top.push((String::from_str("print_status"), JsonValue::Object(ps)));
        proof {
            lemma_entries_map_small(top@);
            assert(top@.drop_last() =~= Seq::<(String, JsonValue)>::empty());
            reveal_with_fuel(crate::json::entries_well_formed, 2);
            assert(crate::json::entries_well_formed(top@));
            assert(crate::json::keys_distinct(top@));
        }
        let full = JsonValue::Object(top);
        PrinterState {
            full,
            device_info: None,
            printer_ip: String::new(),
            connected: false,
            connected_raw: false,
            connected_ws: false,
            latest_detection_ts: 0,
            events: Vec::with_capacity(MAX_EVENTS),
            files: Vec::new(),
        }
    }

    /// Records an event, stamped with the current time, and keeps at most
    /// `MAX_EVENTS` of them.
    pub fn add_event(&mut self, kind: EventKind, description: String)
        ensures
            event_appended(old(self).events@, final(self).events@, kind, description@, None),
            final(self).full == old(self).full,
            final(self).same_besides_status(*old(self)),
    {
        self.add_event_with_snapshot(kind, description, None);
    }

    /// Records an event with an optional snapshot path, stamped with the
    /// current time, and keeps at most `MAX_EVENTS` of them.
    pub fn add_event_with_snapshot(
        &mut self,
        kind: EventKind,
        description: String,
        snapshot: Option<String>,
    )
        ensures
            event_appended(
                old(self).events@,
                final(self).events@,
                kind,
                description@,
                opt_text(snapshot),
            ),
            final(self).full == old(self).full,
            final(self).same_besides_status(*old(self)),
    {
        let e = PrinterEvent { timestamp: unix_time_now(), kind, description, snapshot };
        let ghost pushed = self.events@.push(e);
        self.events.push(e);
        if self.events.len() > MAX_EVENTS {
            self.events.remove(0);
            assert(self.events@ =~= pushed.drop_first());
        }
    }
}

/// The text at `print_status.<field>` of a status document, when it is a string.
pub open spec fn status_text(full: JsonTree, field: Seq<char>) -> Option<Seq<char>> {
    match path_get(full, seq!["print_status"@, field]) {
        Some(JsonTree::Str(s)) => Some(s),
        _ => None,
    }
}

/// The print state that a status document reports: `printing` and `paused`
/// are recognized, anything else is idle.
pub open spec fn print_state_of(full: JsonTree) -> PrintState {
    match status_text(full, "state"@) {
        Some(s) => if s == "printing"@ {
            PrintState::Printing
        } else if s == "paused"@ {
            PrintState::Paused
        } else {
            PrintState::Idle
        },
        None => PrintState::Idle,
    }
}

/// The file name in a status document; empty when it has none.
pub open spec fn filename_of(full: JsonTree) -> Seq<char> {
    match status_text(full, "filename"@) {
        Some(s) => s,
        None => Seq::empty(),
    }
}

/// The string at `print_status.<field>`.
fn status_str<'a>(full: &'a JsonValue, field: &str) -> (r: Option<&'a str>)
    ensures
        match r {
            Some(t) => status_text(full.tree(), field@) == Some(t@),
            None => status_text(full.tree(), field@) is None,
        },
{
    let ghost p = seq!["print_status"@, field@];
    proof {
        assert(p[0] == "print_status"@);
        assert(p.drop_first() =~= seq![field@]);
        assert(seq![field@][0] == field@);
        assert(seq![field@].drop_first() =~= Seq::<Seq<char>>::empty());
        reveal_with_fuel(path_get, 3);
    }
    match full.get("print_status") {
        Some(ps) => match ps.get(field) {
            Some(v) => v.as_str(),
            None => None,
        },
        None => None,
    }
}

/// Whether `name` can be cut to its last 37 bytes at a character boundary,
/// or needs no cut.
pub open spec fn cuts_cleanly(name: Seq<char>) -> bool {
    let b = encode_utf8(name);
    b.len() <= 40 || is_char_boundary(b, b.len() - 37)
}

/// A file name of at most 40 bytes as it is; a longer one as `...` and its
/// last 37 bytes.
pub open spec fn truncated_filename(name: Seq<char>) -> Seq<char> {
    let b = encode_utf8(name);
    if b.len() <= 40 {
        name
    } else {
        "..."@ + decode_utf8(b.subrange(b.len() - 37, b.len() as int))
    }
}

/// Decides `cuts_cleanly`.
pub fn filename_cuts_cleanly(name: &str) -> (r: bool)
    ensures
        r == cuts_cleanly(name@),
{
    let n = name.as_bytes().len();
    n <= 40 || name.is_char_boundary(n - 37)
}

/// Shortens a file name for an event description.
pub fn truncate_filename(name: &str) -> (r: String)
    requires
        cuts_cleanly(name@),
    ensures
        r@ == truncated_filename(name@),
{
    let n = name.as_bytes().len();
    if n <= 40 {
        name.to_owned()
    } else {
        let (_, tail) = name.split_at(n - 37);
        proof {
            encode_utf8_decode_utf8(tail@);
        }
        let mut r = String::from_str("...");
        r.append(tail);
        r
    }
}

/// The event that a change of print state is recorded as, with its
/// description; `filename` is the file being printed.
pub open spec fn transition_event(from: PrintState, to: PrintState, filename: Seq<char>) -> Option<
    (EventKind, Seq<char>),
> {
    match (from, to) {
        (PrintState::Idle, PrintState::Printing) => Some(
            (EventKind::PrintStarted, "Print started: "@ + truncated_filename(filename)),
        ),
        (PrintState::Printing, PrintState::Paused) => Some(
            (EventKind::PrintPaused, "Print paused"@),
        ),
        (PrintState::Paused, PrintState::Printing) => Some(
            (EventKind::PrintResumed, "Print resumed"@),
        ),
        (PrintState::Printing, PrintState::Idle) => Some(
            (EventKind::PrintFinished, "Print finished"@),
        ),
        (PrintState::Paused, PrintState::Idle) => Some(
            (EventKind::PrintStopped, "Print stopped"@),
        ),
        _ => None,
    }
}

/// Whether `after.events` and `outcome` are what recording the change from
/// `from` to `to` makes of `before.events`.
pub open spec fn transition_recorded(
    before: Seq<PrinterEvent>,
    after: Seq<PrinterEvent>,
    from: PrintState,
    to: PrintState,
    filename: Seq<char>,
    outcome: TransitionOutcome,
) -> bool {
    if from == PrintState::Idle && to == PrintState::Printing && !cuts_cleanly(filename) {
        outcome == TransitionOutcome::FilenameNotCharBoundary && after == before
    } else {
        match transition_event(from, to, filename) {
            Some((kind, description)) => outcome == TransitionOutcome::EventAdded
                && event_appended(before, after, kind, description, None),
            None => outcome == TransitionOutcome::NoEvent && after == before,
        }
    }
}

impl PrinterState {
    /// The print state that the status document reports.
    pub fn print_state(&self) -> (r: PrintState)
        ensures
            r == print_state_of(self.full.tree()),
    {
        match status_str(&self.full, "state") {
            Some(t) => if str_equal(t, "printing") {
                PrintState::Printing
            } else if str_equal(t, "paused") {
                PrintState::Paused
            } else {
                PrintState::Idle
            },
            None => PrintState::Idle,
        }
    }

    /// Records the event for a change of print state.
    fn record_state_transition(&mut self, from: PrintState, to: PrintState) -> (r:
        TransitionOutcome)
        ensures
            transition_recorded(
                old(self).events@,
                final(self).events@,
                from,
                to,
                filename_of(old(self).full.tree()),
                r,
            ),
            final(self).full == old(self).full,
            final(self).same_besides_status(*old(self)),
    {
        match (from, to) {
            (PrintState::Idle, PrintState::Printing) => {
                let description = {
                    let name = match status_str(&self.full, "filename") {
                        Some(t) => t,
                        None => {
                            proof {
                                reveal_strlit("");
                            }
                            ""
                        },
                    };
                    if !filename_cuts_cleanly(name) {
                        return TransitionOutcome::FilenameNotCharBoundary;
                    }
                    let short = truncate_filename(name);
                    let mut d = String::from_str("Print started: ");
                    d.append(short.as_str());
                    d
                };
                self.add_event(EventKind::PrintStarted, description);
                TransitionOutcome::EventAdded
            },
            (PrintState::Printing, PrintState::Paused) => {
                self.add_event(EventKind::PrintPaused, String::from_str("Print paused"));
                TransitionOutcome::EventAdded
            },
            (PrintState::Paused, PrintState::Printing) => {
                self.add_event(EventKind::PrintResumed, String::from_str("Print resumed"));
                TransitionOutcome::EventAdded
            },
            (PrintState::Printing, PrintState::Idle) => {
                self.add_event(EventKind::PrintFinished, String::from_str("Print finished"));
                TransitionOutcome::EventAdded
            },
            (PrintState::Paused, PrintState::Idle) => {
                self.add_event(EventKind::PrintStopped, String::from_str("Print stopped"));
                TransitionOutcome::EventAdded
            },
            _ => TransitionOutcome::NoEvent,
        }
    }
}

/// The canvas (multi-material unit) description of a status document;
/// `None` when it is missing or `null`.
pub open spec fn canvas_of(t: JsonTree) -> Option<JsonTree> {
    match tree_get(t, "canvas_info"@) {
        Some(c) => if c is Null {
            None
        } else {
            Some(c)
        },
        None => None,
    }
}

/// The status document that replaces `old` by `status`: a full status
/// report carries no canvas description, so `old`'s one is kept when
/// `status` has none.
pub open spec fn seeded_status(old: JsonTree, status: JsonTree) -> JsonTree {
    match status {
        JsonTree::Object(m) => if canvas_of(status) is None && canvas_of(old) is Some {
            JsonTree::Object(m.insert("canvas_info"@, canvas_of(old).unwrap()))
        } else {
            status
        },
        _ => status,
    }
}

impl PrinterState {
    /// Replaces the status document with a full status report, keeping the
    /// canvas description the report lacks, and records the change of print
    /// state.
    pub fn seed(&mut self, status: JsonValue) -> (r: TransitionOutcome)
        ensures
            !status_ok(status.tree()) ==> {
                &&& r == TransitionOutcome::StatusRejected
                &&& final(self).full == old(self).full
                &&& final(self).events == old(self).events
            },
            status_ok(status.tree()) ==> {
                &&& final(self).full.tree() == seeded_status(old(self).full.tree(), status.tree())
                &&& transition_recorded(
                    old(self).events@,
                    final(self).events@,
                    print_state_of(old(self).full.tree()),
                    print_state_of(final(self).full.tree()),
                    filename_of(final(self).full.tree()),
                    r,
                )
            },
            old(self).full.well_formed() && status.well_formed() ==> final(self).full.well_formed(),
            status_ok(old(self).full.tree()) ==> status_ok(final(self).full.tree()),
            final(self).same_besides_status(*old(self)),
    {
        if !check_status(&status) {
            return TransitionOutcome::StatusRejected;
        }
        proof {
            reveal_strlit("canvas_info");
            reveal_strlit("print_status");
            assert("canvas_info"@.len() != "print_status"@.len());
        }
        let old_state = self.print_state();
        let mut old_full = JsonValue::Null;
        std::mem::swap(&mut old_full, &mut self.full);
        let saved = match old_full.into_value_at("canvas_info") {
            Some(c) => if c.is_null() {
                None
            } else {
                Some(c)
            },
            None => None,
        };
        let status_has_canvas = match status.get("canvas_info") {
            Some(c) => !c.is_null(),
            None => false,
        };
        let new_full = if status_has_canvas {
            status
        } else {
            match saved {
                Some(c) => status.with_key(String::from_str("canvas_info"), c),
                None => status,
            }
        };
        self.full = new_full;
        let new_state = self.print_state();
        if old_state != new_state {
            self.record_state_transition(old_state, new_state)
        } else {
            TransitionOutcome::NoEvent
        }
    }

    /// Merges a status delta into the status document and records the
    /// change of print state.
    pub fn merge_delta(&mut self, delta: JsonValue) -> (r: TransitionOutcome)
        requires
            delta.well_formed(),
        ensures
            !status_ok(merge_tree(old(self).full.tree(), delta.tree())) ==> {
                &&& r == TransitionOutcome::StatusRejected
                &&& final(self).full.tree() == old(self).full.tree()
                &&& final(self).events == old(self).events
            },
            status_ok(merge_tree(old(self).full.tree(), delta.tree())) ==> {
                &&& final(self).full.tree() == merge_tree(old(self).full.tree(), delta.tree())
                &&& transition_recorded(
                    old(self).events@,
                    final(self).events@,
                    print_state_of(old(self).full.tree()),
                    print_state_of(final(self).full.tree()),
                    filename_of(final(self).full.tree()),
                    r,
                )
            },
            old(self).full.well_formed() ==> final(self).full.well_formed(),
            status_ok(old(self).full.tree()) ==> status_ok(final(self).full.tree()),
            final(self).same_besides_status(*old(self)),
    {
        let old_state = self.print_state();
        let mut current = JsonValue::Null;
        std::mem::swap(&mut current, &mut self.full);
        let kept = current.deep_copy();
        let merged = recursive_merge(current, delta);
        if !check_status(&merged) {
            self.full = kept;
            return TransitionOutcome::StatusRejected;
        }
        self.full = merged;
        let new_state = self.print_state();
        if old_state != new_state {
            self.record_state_transition(old_state, new_state)
        } else {
            TransitionOutcome::NoEvent
        }
    }

    /// Sets the canvas description of the status document.
    pub fn set_canvas_info(&mut self, canvas: JsonValue)
        ensures
            final(self).full.tree() == match old(self).full.tree() {
                JsonTree::Object(m) => JsonTree::Object(m.insert("canvas_info"@, canvas.tree())),
                t => t,
            },
            old(self).full.well_formed() && canvas.well_formed() ==> final(self).full.well_formed(),
            final(self).events == old(self).events,
            final(self).same_besides_status(*old(self)),
    {
        let mut current = JsonValue::Null;
        std::mem::swap(&mut current, &mut self.full);
        self.full = current.with_key(String::from_str("canvas_info"), canvas);
    }
}

/// The last `n` events of `s` (all of them when there are fewer).
pub open spec fn latest(s: Seq<PrinterEvent>, n: nat) -> Seq<PrinterEvent> {
    if s.len() <= n {
        s
    } else {
        s.skip(s.len() - n)
    }
}

/// The events held are always the latest `MAX_EVENTS` of all recorded: if
/// they were before an event is appended, they are after it.
pub proof fn law_events_keep_latest(
    history: Seq<PrinterEvent>,
    before: Seq<PrinterEvent>,
    after: Seq<PrinterEvent>,
    kind: EventKind,
    description: Seq<char>,
    snapshot: Option<Seq<char>>,
)
    requires
        before == latest(history, MAX_EVENTS as nat),
        event_appended(before, after, kind, description, snapshot),
    ensures
        after == latest(history.push(after.last()), MAX_EVENTS as nat),
        after.len() <= MAX_EVENTS,
{
    let h2 = history.push(after.last());
    if history.len() >= MAX_EVENTS {
        assert(before.push(after.last()).drop_first() =~= h2.skip(h2.len() - MAX_EVENTS));
    }
}

/// A full status report without a canvas description keeps the one held before.
pub proof fn law_seed_keeps_canvas(old: JsonTree, status: JsonTree)
    requires
        status is Object,
        canvas_of(status) is None,
    ensures
        canvas_of(seeded_status(old, status)) == canvas_of(old),
{
}

/// A status report with a canvas description replaces the one held before.
pub proof fn law_seed_takes_new_canvas(old: JsonTree, status: JsonTree)
    requires
        canvas_of(status) is Some,
    ensures
        seeded_status(old, status) == status,
{
}

/// A delta that does not reach `print_status.state` leaves the print state
/// as it was, so merging it records no event.
pub proof fn law_untouched_state_keeps_print_state(
    base: JsonTree,
    delta: JsonTree,
    filename: Seq<char>,
)
    requires
        path_get(delta, seq!["print_status"@, "state"@]) is None,
        keeps_path(delta, seq!["print_status"@, "state"@]),
    ensures
        print_state_of(merge_tree(base, delta)) == print_state_of(base),
        transition_event(print_state_of(base), print_state_of(merge_tree(base, delta)), filename)
            is None,
{
    law_merge_preserves_untouched(base, delta, seq!["print_status"@, "state"@]);
}

/// Encoding a concatenation encodes each part.
pub proof fn lemma_encode_utf8_concat(a: Seq<char>, b: Seq<char>)
    ensures
        encode_utf8(a + b) == encode_utf8(a) + encode_utf8(b),
    decreases a.len(),
{
    if a.len() > 0 {
        assert((a + b).drop_first() =~= a.drop_first() + b);
        lemma_encode_utf8_concat(a.drop_first(), b);
        assert(encode_utf8(a + b) =~= encode_utf8(a) + encode_utf8(b));
    } else {
        assert(a + b =~= b);
    }
}

/// A shortened file name takes at most 40 bytes.
pub proof fn law_truncated_filename_fits(name: Seq<char>)
    requires
        cuts_cleanly(name),
    ensures
        encode_utf8(truncated_filename(name)).len() <= 40,
{
    let b = encode_utf8(name);
    if b.len() > 40 {
        let tail = b.subrange(b.len() - 37, b.len() as int);
        encode_utf8_valid_utf8(name);
        valid_utf8_split(b, b.len() - 37);
        decode_utf8_encode_utf8(tail);
        lemma_encode_utf8_concat("..."@, decode_utf8(tail));
        reveal_strlit("...");
        reveal_with_fuel(encode_utf8, 4);
        assert("..."@.drop_first().drop_first().drop_first() =~= Seq::<char>::empty());
        assert(encode_scalar('.' as u32).len() == 1);
    }
}

/// What a change of print state records: printing to idle is a finished
/// print, paused to idle a stopped one, printing to paused a pause, paused
/// to printing a resume, idle to printing a start naming the file (unless
/// its name cannot be shortened); no other change records anything.
pub proof fn law_transition_kinds(
    before: Seq<PrinterEvent>,
    after: Seq<PrinterEvent>,
    from: PrintState,
    to: PrintState,
    filename: Seq<char>,
    outcome: TransitionOutcome,
)
    requires
        transition_recorded(before, after, from, to, filename, outcome),
    ensures
        from == PrintState::Printing && to == PrintState::Idle ==> {
            &&& outcome == TransitionOutcome::EventAdded
            &&& after.last().kind == EventKind::PrintFinished
            &&& after.last().description@ == "Print finished"@
        },
        from == PrintState::Paused && to == PrintState::Idle ==> {
            &&& outcome == TransitionOutcome::EventAdded
            &&& after.last().kind == EventKind::PrintStopped
            &&& after.last().description@ == "Print stopped"@
        },
        from == PrintState::Printing && to == PrintState::Paused ==> {
            &&& outcome == TransitionOutcome::EventAdded
            &&& after.last().kind == EventKind::PrintPaused
            &&& after.last().description@ == "Print paused"@
        },
        from == PrintState::Paused && to == PrintState::Printing ==> {
            &&& outcome == TransitionOutcome::EventAdded
            &&& after.last().kind == EventKind::PrintResumed
            &&& after.last().description@ == "Print resumed"@
        },
        from == PrintState::Idle && to == PrintState::Printing ==> {
            ||| outcome == TransitionOutcome::EventAdded && after.last().kind
                == EventKind::PrintStarted && after.last().description@ == "Print started: "@
                + truncated_filename(filename)
            ||| outcome == TransitionOutcome::FilenameNotCharBoundary && after == before
        },
        from == to || (from == PrintState::Idle && to == PrintState::Paused) ==> {
            &&& outcome == TransitionOutcome::NoEvent
            &&& after == before
        },
        outcome == TransitionOutcome::EventAdded ==> {
            &&& after.len() > 0
            &&& after == capped(before.push(after.last()))
            &&& after.last().snapshot is None
        },
{
}

} // verus!
