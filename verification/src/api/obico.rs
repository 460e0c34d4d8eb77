use vstd::prelude::*;
use vstd::string::*;
use crate::error::AppError;
use crate::json::{JsonValue, JsonTree, lemma_entries_map_small};
use crate::text::{decimal, push_decimal, trim_bounds, trim_ws};

verus! {

/// A request to check that an Obico ML URL answers.
pub struct TestObicoUrlRequest {
    pub url: String,
}

/// The URL to probe for a test request: the requested URL trimmed of white
/// space; refused when nothing is left.
pub fn test_url_target(req: &TestObicoUrlRequest) -> (r: Result<String, AppError>)
    ensures
        match r {
            Ok(url) => trim_ws(req.url@).len() > 0 && url@ == trim_ws(req.url@),
            Err(AppError::Validation(msg)) => trim_ws(req.url@).len() == 0 && msg@
                == "Obico URL is required"@,
        },
{
    let (start, end) = trim_bounds(req.url.as_str());
    if start == end {
        return Err(AppError::Validation(String::from_str("Obico URL is required")));
    }
    Ok(req.url.as_str().substring_char(start, end).to_owned())
}

/// The local Obico ML API prediction endpoint on `port`.
pub open spec fn ml_api_url_text(port: u16) -> Seq<char> {
    "http://127.0.0.1:"@ + decimal(port as nat) + "/p/"@
}

/// The local Obico ML API prediction endpoint on `port`.
pub fn ml_api_url(port: u16) -> (r: String)
    ensures
        r@ == ml_api_url_text(port),
{
    let mut r = String::from_str("http://127.0.0.1:");
    push_decimal(&mut r, port as u64);
    r.append("/p/");
    r
}

/// The answer to a start request once the container was started: the ML
/// API's URL when it became reachable, otherwise a refusal.
pub fn start_container_answer(ready: bool, port: u16) -> (r: Result<JsonValue, AppError>)
    ensures
        match r {
            Ok(answer) => ready && answer.tree() == JsonTree::Object(
                map![
                    "success"@ => JsonTree::Bool(true),
                    "url"@ => JsonTree::Str(ml_api_url_text(port)),
                ],
            ),
            Err(AppError::Validation(msg)) => !ready && msg@
                == "Container started but ML API did not become reachable within 60s"@,
        },
{
    if !ready {
        return Err(
            AppError::Validation(
                String::from_str(
                    "Container started but ML API did not become reachable within 60s",
                ),
            ),
        );
    }
    let mut entries: Vec<(String, JsonValue)> = Vec::new();
    entries.push((String::from_str("success"), JsonValue::Bool(true)));
    entries.push((String::from_str("url"), JsonValue::Str(ml_api_url(port))));
    proof {
        lemma_entries_map_small(entries@);
    }
    Ok(JsonValue::Object(entries))
}

/// What the container manager reports, as far as the start stream tells
/// the cases apart.
pub enum ContainerStatus {
    Running,
    Unavailable,
    Other,
}

/// The first step of the start stream: a final `(event, data)` message when
/// the container already runs or cannot run, `None` when it is to be started.
pub fn stream_on_status(status: ContainerStatus, port: u16) -> (r: Option<(String, String)>)
    ensures
        match status {
            ContainerStatus::Running => r matches Some((e, d)) && e@ == "ready"@ && d@
                == ml_api_url_text(port),
            ContainerStatus::Unavailable => r matches Some((e, d)) && e@ == "fail"@ && d@
                == "Docker is not available on this host."@,
            ContainerStatus::Other => r is None,
        },
{
    match status {
        ContainerStatus::Running => Some((String::from_str("ready"), ml_api_url(port))),
        ContainerStatus::Unavailable => Some(
            (String::from_str("fail"), String::from_str("Docker is not available on this host.")),
        ),
        ContainerStatus::Other => None,
    }
}

/// The stream message once the start was attempted: a progress note when
/// it succeeded (the stream then waits for the API), else the failure.
pub fn stream_on_launch(launch: Result<(), String>) -> (r: (String, String))
    ensures
        match launch {
            Ok(()) => r.0@ == "log"@ && r.1@ == "Waiting for ML API to become ready…"@,
            Err(e) => r.0@ == "fail"@ && r.1@ == e@,
        },
{
    match launch {
        Ok(()) => (String::from_str("log"), String::from_str("Waiting for ML API to become ready…")),
        Err(e) => (String::from_str("fail"), e),
    }
}

/// The last stream message: the API URL when it became ready, else a failure.
pub fn stream_on_ready(ready: bool, port: u16) -> (r: (String, String))
    ensures
        ready ==> r.0@ == "ready"@ && r.1@ == ml_api_url_text(port),
        !ready ==> r.0@ == "fail"@ && r.1@
            == "Container started but ML API did not become ready within 60s."@,
{
    if ready {
        (String::from_str("ready"), ml_api_url(port))
    } else {
        (
            String::from_str("fail"),
            String::from_str("Container started but ML API did not become ready within 60s."),
        )
    }
}


/// Where the container start stream stands.
#[derive(Debug, Clone, Copy, PartialEq, Eq, Structural)]
pub enum StreamStage {
    /// Nothing is known yet; the container manager's status comes first.
    Start,
    /// The container is being started; progress messages are passed on.
    Starting,
    /// The container started; the stream waits for the ML API.
    Waiting,
    /// The final message was sent; the stream is over.
    Finished,
}

/// What the start stream learns next.
pub enum StreamOutcome {
    /// The container manager's status.
    Status(ContainerStatus),
    /// A progress message `(event, data)` of the container manager.
    Progress(String, String),
    /// The start attempt ended: `Ok` when the container started, else its error.
    Launched(Result<(), String>),
    /// Whether the ML API became reachable in time.
    Ready(bool),
}

/// A stream outcome as values.
pub enum OutcomeView {
    Status(ContainerStatus),
    Progress(Seq<char>, Seq<char>),
    Launched(Result<(), Seq<char>>),
    Ready(bool),
}

impl StreamOutcome {
    /// This outcome as values.
    pub open spec fn view(self) -> OutcomeView {
        match self {
            StreamOutcome::Status(s) => OutcomeView::Status(s),
            StreamOutcome::Progress(e, d) => OutcomeView::Progress(e@, d@),
            StreamOutcome::Launched(l) => OutcomeView::Launched(
                match l {
                    Ok(()) => Ok(()),
                    Err(e) => Err(e@),
                },
            ),
            StreamOutcome::Ready(b) => OutcomeView::Ready(b),
        }
    }
}

/// An optional stream message as text.
pub open spec fn message_view(m: Option<(String, String)>) -> Option<(Seq<char>, Seq<char>)> {
    match m {
        Some((e, d)) => Some((e@, d@)),
        None => None,
    }
}

/// The message the stream sends for an outcome at a stage, and the stage
/// after it. An outcome that does not belong to the stage is ignored.
pub open spec fn stream_step_spec(stage: StreamStage, o: OutcomeView, port: u16) -> (
    Option<(Seq<char>, Seq<char>)>,
    StreamStage,
) {
    match (stage, o) {
        (StreamStage::Start, OutcomeView::Status(ContainerStatus::Running)) => (
            Some(("ready"@, ml_api_url_text(port))),
            StreamStage::Finished,
        ),
        (StreamStage::Start, OutcomeView::Status(ContainerStatus::Unavailable)) => (
            Some(("fail"@, "Docker is not available on this host."@)),
            StreamStage::Finished,
        ),
        (StreamStage::Start, OutcomeView::Status(ContainerStatus::Other)) => (
            None,
            StreamStage::Starting,
        ),
        (StreamStage::Starting, OutcomeView::Progress(e, d)) => (Some((e, d)), StreamStage::Starting),
        (StreamStage::Starting, OutcomeView::Launched(Ok(()))) => (
            Some(("log"@, "Waiting for ML API to become ready…"@)),
            StreamStage::Waiting,
        ),
        (StreamStage::Starting, OutcomeView::Launched(Err(e))) => (
            Some(("fail"@, e)),
            StreamStage::Finished,
        ),
        (StreamStage::Waiting, OutcomeView::Ready(true)) => (
            Some(("ready"@, ml_api_url_text(port))),
            StreamStage::Finished,
        ),
        (StreamStage::Waiting, OutcomeView::Ready(false)) => (
            Some(("fail"@, "Container started but ML API did not become ready within 60s."@)),
            StreamStage::Finished,
        ),
        _ => (None, stage),
    }
}

/// One step of the container start stream: the `(event, data)` message to
/// send, if any, and the next stage; the stream ends at `Finished`.
pub fn stream_step(stage: StreamStage, outcome: StreamOutcome, port: u16) -> (r: (
    Option<(String, String)>,
    StreamStage,
))
    ensures
        (message_view(r.0), r.1) == stream_step_spec(stage, outcome.view(), port),
{
    match (stage, outcome) {
        (StreamStage::Start, StreamOutcome::Status(status)) => match stream_on_status(status, port) {
            Some(m) => (Some(m), StreamStage::Finished),
            None => (None, StreamStage::Starting),
        },
        (StreamStage::Starting, StreamOutcome::Progress(e, d)) => (Some((e, d)), StreamStage::Starting),
        (StreamStage::Starting, StreamOutcome::Launched(launch)) => {
            let ok = launch.is_ok();
            let m = stream_on_launch(launch);
            if ok {
                (Some(m), StreamStage::Waiting)
            } else {
                (Some(m), StreamStage::Finished)
            }
        },
        (StreamStage::Waiting, StreamOutcome::Ready(ready)) => (
            Some(stream_on_ready(ready, port)),
            StreamStage::Finished,
        ),
        _ => (None, stage),
    }
}

/// A message as a sequence of none or one message.
pub open spec fn message_seq(m: Option<(Seq<char>, Seq<char>)>) -> Seq<(Seq<char>, Seq<char>)> {
    match m {
        Some(x) => seq![x],
        None => Seq::empty(),
    }
}

/// The messages a stream sends for a run of outcomes from `stage`, and
/// the stage it ends in.
pub open spec fn run_stream(stage: StreamStage, os: Seq<OutcomeView>, port: u16) -> (
    Seq<(Seq<char>, Seq<char>)>,
    StreamStage,
)
    decreases os.len(),
{
    if os.len() == 0 {
        (Seq::empty(), stage)
    } else {
        let (m, next) = stream_step_spec(stage, os[0], port);
        let (rest, last) = run_stream(next, os.drop_first(), port);
        (message_seq(m) + rest, last)
    }
}

/// The outcomes of one start, in the order they happen: the status, the
/// progress messages, the start's result, and whether the API became ready.
pub open spec fn start_outcomes(
    status: ContainerStatus,
    progress: Seq<(Seq<char>, Seq<char>)>,
    launch: Result<(), Seq<char>>,
    ready: bool,
) -> Seq<OutcomeView> {
    seq![OutcomeView::Status(status)] + progress.map_values(
        |p: (Seq<char>, Seq<char>)| OutcomeView::Progress(p.0, p.1),
    ) + seq![OutcomeView::Launched(launch), OutcomeView::Ready(ready)]
}

/// The messages of the container start stream: when the container already
/// runs, the API URL; when the container manager is unavailable, that
/// failure; otherwise the progress messages, then the start error, or a
/// note that the stream waits followed by the URL or a timeout failure.
pub open spec fn expected_stream(
    status: ContainerStatus,
    progress: Seq<(Seq<char>, Seq<char>)>,
    launch: Result<(), Seq<char>>,
    ready: bool,
    port: u16,
) -> Seq<(Seq<char>, Seq<char>)> {
    match status {
        ContainerStatus::Running => seq![("ready"@, ml_api_url_text(port))],
        ContainerStatus::Unavailable => seq![("fail"@, "Docker is not available on this host."@)],
        ContainerStatus::Other => progress + match launch {
            Err(e) => seq![("fail"@, e)],
            Ok(()) => seq![
                ("log"@, "Waiting for ML API to become ready…"@),
                if ready {
                    ("ready"@, ml_api_url_text(port))
                } else {
                    ("fail"@, "Container started but ML API did not become ready within 60s."@)
                },
            ],
        },
    }
}

/// A finished stream sends nothing more.
proof fn lemma_finished_stream(os: Seq<OutcomeView>, port: u16)
    ensures
        run_stream(StreamStage::Finished, os, port) == (Seq::<(Seq<char>, Seq<char>)>::empty(), StreamStage::Finished),
    decreases os.len(),
{
    if os.len() > 0 {
        lemma_finished_stream(os.drop_first(), port);
        assert(Seq::<(Seq<char>, Seq<char>)>::empty() + Seq::<(Seq<char>, Seq<char>)>::empty()
            =~= Seq::<(Seq<char>, Seq<char>)>::empty());
    }
}

/// While starting, progress messages are passed on in order.
proof fn lemma_progress_passed_on(
    progress: Seq<(Seq<char>, Seq<char>)>,
    rest: Seq<OutcomeView>,
    port: u16,
)
    ensures
        run_stream(
            StreamStage::Starting,
            progress.map_values(|p: (Seq<char>, Seq<char>)| OutcomeView::Progress(p.0, p.1)) + rest,
            port,
        ) == (progress + run_stream(StreamStage::Starting, rest, port).0, run_stream(
            StreamStage::Starting,
            rest,
            port,
        ).1),
    decreases progress.len(),
{
    let ps = progress.map_values(|p: (Seq<char>, Seq<char>)| OutcomeView::Progress(p.0, p.1));
    if progress.len() == 0 {
        assert(ps + rest =~= rest);
        assert(progress + run_stream(StreamStage::Starting, rest, port).0 =~= run_stream(
            StreamStage::Starting,
            rest,
            port,
        ).0);
    } else {
        let tail = progress.drop_first();
        let pt = tail.map_values(|p: (Seq<char>, Seq<char>)| OutcomeView::Progress(p.0, p.1));
        assert((ps + rest).drop_first() =~= pt + rest);
        assert((ps + rest)[0] == OutcomeView::Progress(progress[0].0, progress[0].1));
        lemma_progress_passed_on(tail, rest, port);
        assert(seq![progress[0]] + (tail + run_stream(StreamStage::Starting, rest, port).0)
            =~= progress + run_stream(StreamStage::Starting, rest, port).0);
    }
}

/// The container start stream sends exactly the expected messages, in
/// order, and is over after the last of them, whatever follows.
pub proof fn law_start_stream_sequence(
    status: ContainerStatus,
    progress: Seq<(Seq<char>, Seq<char>)>,
    launch: Result<(), Seq<char>>,
    ready: bool,
    later: Seq<OutcomeView>,
    port: u16,
)
    ensures
        run_stream(StreamStage::Start, start_outcomes(status, progress, launch, ready) + later, port)
            == (expected_stream(status, progress, launch, ready, port), StreamStage::Finished),
{
    let os = start_outcomes(status, progress, launch, ready) + later;
    let ps = progress.map_values(|p: (Seq<char>, Seq<char>)| OutcomeView::Progress(p.0, p.1));
    let tail = seq![OutcomeView::Launched(launch), OutcomeView::Ready(ready)] + later;
    assert(os[0] == OutcomeView::Status(status));
    assert(os.drop_first() =~= ps + tail);
    match status {
        ContainerStatus::Other => {
            lemma_progress_passed_on(progress, tail, port);
            assert(tail[0] == OutcomeView::Launched(launch));
            assert(tail.drop_first()[0] == OutcomeView::Ready(ready));
            lemma_finished_stream(tail.drop_first(), port);
            lemma_finished_stream(tail.drop_first().drop_first(), port);
            let t1 = tail.drop_first();
            let t2 = t1.drop_first();
            assert(t2 =~= later);
            let r = run_stream(StreamStage::Starting, tail, port);
            let last = stream_step_spec(StreamStage::Waiting, OutcomeView::Ready(ready), port);
            let r1 = run_stream(StreamStage::Waiting, t1, port);
            assert(r1 == (message_seq(last.0) + run_stream(last.1, t2, port).0, run_stream(last.1, t2, port).1));
            assert(last.1 == StreamStage::Finished);
            match launch {
                Ok(()) => {
                    assert(r == (seq![("log"@, "Waiting for ML API to become ready…"@)] + r1.0, r1.1));
                    assert(r1.0 =~= message_seq(last.0));
                },
                Err(e) => {
                    assert(r.0 =~= seq![("fail"@, e)] + Seq::<(Seq<char>, Seq<char>)>::empty());
                },
            }
            assert(Seq::<(Seq<char>, Seq<char>)>::empty() + (progress + r.0) =~= progress + r.0);
        },
        _ => {
            lemma_finished_stream(os.drop_first(), port);
        },
    }
}

} // verus!
