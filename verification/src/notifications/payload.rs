use vstd::prelude::*;
use vstd::string::*;
use crate::printer::state::{EventKind, PrinterEvent};

verus! {

/// A notification: title, body text, and embed colour as `0xRRGGBB`.
pub struct Payload {
    pub title: String,
    pub body: String,
    pub color: u32,
}

/// The title and colour a notification about an event of `kind` carries.
pub open spec fn payload_style(kind: EventKind) -> (Seq<char>, u32) {
    match kind {
        EventKind::PrintStarted => ("Print Started"@, 0x3498db),
        EventKind::PrintFinished => ("Print Finished"@, 0x2ecc71),
        EventKind::PrintPaused => ("Print Paused"@, 0xf39c12),
        EventKind::FailureNotifyThreshold => ("Failure Risk Detected"@, 0xe67e22),
        EventKind::FailurePauseThreshold => ("Print Failure Confirmed"@, 0xe74c3c),
        EventKind::AutoPaused => ("Print Auto-Paused"@, 0xe74c3c),
        _ => ("CC2 Monitor"@, 0x95a5a6),
    }
}

/// The notification for an event: its body is the event's description.
pub fn format_event(event: &PrinterEvent) -> (p: Payload)
    ensures
        p.title@ == payload_style(event.kind).0,
        p.color == payload_style(event.kind).1,
        p.body@ == event.description@,
{
    match &event.kind {
        EventKind::PrintStarted => Payload {
            title: String::from_str("Print Started"),
            body: event.description.clone(),
            color: 0x3498db,
        },
        EventKind::PrintFinished => Payload {
            title: String::from_str("Print Finished"),
            body: event.description.clone(),
            color: 0x2ecc71,
        },
        EventKind::PrintPaused => Payload {
            title: String::from_str("Print Paused"),
            body: event.description.clone(),
            color: 0xf39c12,
        },
        EventKind::FailureNotifyThreshold => Payload {
            title: String::from_str("Failure Risk Detected"),
            body: event.description.clone(),
            color: 0xe67e22,
        },
        EventKind::FailurePauseThreshold => Payload {
            title: String::from_str("Print Failure Confirmed"),
            body: event.description.clone(),
            color: 0xe74c3c,
        },
        EventKind::AutoPaused => Payload {
            title: String::from_str("Print Auto-Paused"),
            body: event.description.clone(),
            color: 0xe74c3c,
        },
        _ => Payload {
            title: String::from_str("CC2 Monitor"),
            body: event.description.clone(),
            color: 0x95a5a6,
        },
    }
}

/// Whether notifications about events of `kind` have a title of their own.
pub open spec fn has_own_title(kind: EventKind) -> bool {
    ||| kind is PrintStarted
    ||| kind is PrintFinished
    ||| kind is PrintPaused
    ||| kind is FailureNotifyThreshold
    ||| kind is FailurePauseThreshold
    ||| kind is AutoPaused
}

/// Each title names one kind of event: "Print Finished" in green is given
/// exactly to finished prints, and so on for the six kinds with a title of
/// their own; every other kind, a stopped print among them, is announced
/// as "CC2 Monitor" in grey.
pub proof fn law_notification_titles(kind: EventKind)
    ensures
        (payload_style(kind).0 == "Print Finished"@) <==> kind is PrintFinished,
        (payload_style(kind).0 == "Print Started"@) <==> kind is PrintStarted,
        (payload_style(kind).0 == "Print Paused"@) <==> kind is PrintPaused,
        (payload_style(kind).0 == "Failure Risk Detected"@) <==> kind is FailureNotifyThreshold,
        (payload_style(kind).0 == "Print Failure Confirmed"@) <==> kind is FailurePauseThreshold,
        (payload_style(kind).0 == "Print Auto-Paused"@) <==> kind is AutoPaused,
        (payload_style(kind).0 == "CC2 Monitor"@) <==> !has_own_title(kind),
        kind is PrintStarted ==> payload_style(kind).1 == 0x3498db,
        kind is PrintFinished ==> payload_style(kind).1 == 0x2ecc71,
        kind is PrintPaused ==> payload_style(kind).1 == 0xf39c12,
        kind is FailureNotifyThreshold ==> payload_style(kind).1 == 0xe67e22,
        kind is FailurePauseThreshold ==> payload_style(kind).1 == 0xe74c3c,
        kind is AutoPaused ==> payload_style(kind).1 == 0xe74c3c,
        !has_own_title(kind) ==> payload_style(kind).1 == 0x95a5a6,
{
    reveal_strlit("Print Finished");
    reveal_strlit("Print Started");
    reveal_strlit("Print Paused");
    reveal_strlit("Failure Risk Detected");
    reveal_strlit("Print Failure Confirmed");
    reveal_strlit("Print Auto-Paused");
    reveal_strlit("CC2 Monitor");
    assert("Print Finished"@.len() == 14);
    assert("Print Started"@.len() == 13);
    assert("Print Paused"@.len() == 12);
    assert("Failure Risk Detected"@.len() == 21);
    assert("Print Failure Confirmed"@.len() == 23);
    assert("Print Auto-Paused"@.len() == 17);
    assert("CC2 Monitor"@.len() == 11);
}

} // verus!
