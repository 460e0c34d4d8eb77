use vstd::prelude::*;
use vstd::string::*;
use crate::json::{JsonValue, JsonTree, trees_of, lemma_entries_map_small};
use crate::printer::event_log::kind_name;
use crate::printer::state::{PrinterEvent, PrinterState};

verus! {

/// How the events API shows an event: `timestamp`, `kind`, `message`, and
/// `snapshot` when the event has one.
pub open spec fn log_entry_tree(e: PrinterEvent) -> JsonTree {
    let fields = map![
        "timestamp"@ => JsonTree::UInt(e.timestamp),
        "kind"@ => JsonTree::Str(kind_name(e.kind)),
        "message"@ => JsonTree::Str(e.description@),
    ];
    JsonTree::Object(
        match e.snapshot {
            Some(snap) => fields.insert("snapshot"@, JsonTree::Str(snap@)),
            None => fields,
        },
    )
}

/// The events API's view of one event.
pub fn log_entry(e: &PrinterEvent) -> (r: JsonValue)
    ensures
        r.tree() == log_entry_tree(*e),
{
    let mut entries: Vec<(String, JsonValue)> = Vec::new();
    entries.push((String::from_str("timestamp"), JsonValue::UInt(e.timestamp)));
    entries.push((String::from_str("kind"), JsonValue::Str(e.kind.log_name())));
    entries.push((String::from_str("message"), JsonValue::Str(e.description.clone())));
    match &e.snapshot {
        Some(snap) => {
            entries.push((String::from_str("snapshot"), JsonValue::Str(snap.clone())));
        },
        None => {},
    }
    proof {
        lemma_entries_map_small(entries@);
    }
    JsonValue::Object(entries)
}

/// The events response: `{"logs": [...]}` with every held event, oldest first.
pub fn get_logs(state: &PrinterState) -> (r: JsonValue)
    ensures
        r.tree() == JsonTree::Object(
            map!["logs"@ => JsonTree::Array(state.events@.map_values(|e: PrinterEvent| log_entry_tree(e)))],
        ),
{
    let mut logs: Vec<JsonValue> = Vec::new();
    let n = state.events.len();
    let mut i: usize = 0;
    while i < n
        invariant
            n == state.events@.len(),
            i <= n,
            trees_of(logs@) == state.events@.take(i as int).map_values(
                |e: PrinterEvent| log_entry_tree(e),
            ),
        decreases n - i,
    {
        let entry = log_entry(&state.events[i]);
        let ghost before = logs@;
        logs.push(entry);
        proof {
            assert(logs@.drop_last() =~= before);
            assert(state.events@.take(i + 1).map_values(|e: PrinterEvent| log_entry_tree(e))
                =~= state.events@.take(i as int).map_values(|e: PrinterEvent| log_entry_tree(e)).push(
                log_entry_tree(state.events@[i as int]),
            ));
        }
        i = i + 1;
    }
    assert(state.events@.take(n as int) =~= state.events@);
    let mut entries: Vec<(String, JsonValue)> = Vec::new();
    entries.push((String::from_str("logs"), JsonValue::Array(logs)));
    proof {
        lemma_entries_map_small(entries@);
        assert(entries@[0].1.tree() == JsonTree::Array(trees_of(logs@)));
    }
    JsonValue::Object(entries)
}

/// Clears the held events; answers `{"deleted": true}`.
pub fn delete_logs(state: &mut PrinterState) -> (r: JsonValue)
    ensures
        final(state).events@ == Seq::<PrinterEvent>::empty(),
        final(state).full == old(state).full,
        final(state).same_besides_status(*old(state)),
        r.tree() == JsonTree::Object(map!["deleted"@ => JsonTree::Bool(true)]),
{
    state.events.clear();
    let mut entries: Vec<(String, JsonValue)> = Vec::new();
    entries.push((String::from_str("deleted"), JsonValue::Bool(true)));
    proof {
        lemma_entries_map_small(entries@);
    }
    JsonValue::Object(entries)
}

} // verus!
