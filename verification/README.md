# cc2_openwebui

The logic of a LAN web UI for the Elegoo CC2 printer, as a verified library,
with the I/O around it.

- `src/` is the library, verified with Verus:
  - `json`: the JSON documents the printer exchanges, with the recursive
    merge of status deltas and its laws;
  - `printer`: the printer state (status document, print-state transitions,
    the capped event list, the event log records) and the decisions of the
    raw MQTT session;
  - `detection`: JPEG frame sizes, the Obico ML base URL, the reading of
    Obico ML responses, exclusion-zone decisions and snapshot pruning;
  - `notifications` and `api`: notification payloads, Discord webhooks, and
    the answers of the web API.
- `app/` holds what the library does not: the MQTT and HTTP clients, files,
  the web handlers, and the floating-point arithmetic on detection boxes.
- `tests/` runs the library on concrete values.
