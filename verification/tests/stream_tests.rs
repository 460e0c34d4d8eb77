use cc2_openwebui::api::obico::{stream_step, ContainerStatus, StreamOutcome, StreamStage};

fn run(outcomes: Vec<StreamOutcome>) -> (Vec<(String, String)>, StreamStage) {
    let mut stage = StreamStage::Start;
    let mut sent = Vec::new();
    for o in outcomes {
        let (m, next) = stream_step(stage, o, 3333);
        if let Some(m) = m {
            sent.push(m);
        }
        stage = next;
    }
    (sent, stage)
}

fn msg(e: &str, d: &str) -> (String, String) {
    (e.to_string(), d.to_string())
}

#[test]
fn running_container_is_ready_at_once() {
    let (sent, stage) = run(vec![StreamOutcome::Status(ContainerStatus::Running), StreamOutcome::Ready(false)]);
    assert_eq!(sent, vec![msg("ready", "http://127.0.0.1:3333/p/")]);
    assert_eq!(stage, StreamStage::Finished);
}

#[test]
fn unavailable_docker_fails() {
    let (sent, stage) = run(vec![StreamOutcome::Status(ContainerStatus::Unavailable)]);
    assert_eq!(sent, vec![msg("fail", "Docker is not available on this host.")]);
    assert_eq!(stage, StreamStage::Finished);
}

#[test]
fn start_passes_progress_then_waits() {
    let (sent, stage) = run(vec![
        StreamOutcome::Status(ContainerStatus::Other),
        StreamOutcome::Progress("log".to_string(), "pulling".to_string()),
        StreamOutcome::Launched(Ok(())),
        StreamOutcome::Ready(true),
        StreamOutcome::Progress("log".to_string(), "late".to_string()),
    ]);
    assert_eq!(
        sent,
        vec![
            msg("log", "pulling"),
            msg("log", "Waiting for ML API to become ready…"),
            msg("ready", "http://127.0.0.1:3333/p/"),
        ]
    );
    assert_eq!(stage, StreamStage::Finished);
}

#[test]
fn failed_start_and_timeout() {
    let (sent, _) = run(vec![
        StreamOutcome::Status(ContainerStatus::Other),
        StreamOutcome::Launched(Err("no image".to_string())),
        StreamOutcome::Ready(true),
    ]);
    assert_eq!(sent, vec![msg("fail", "no image")]);
    let (sent, _) = run(vec![
        StreamOutcome::Status(ContainerStatus::Other),
        StreamOutcome::Launched(Ok(())),
        StreamOutcome::Ready(false),
    ]);
    assert_eq!(
        sent,
        vec![
            msg("log", "Waiting for ML API to become ready…"),
            msg("fail", "Container started but ML API did not become ready within 60s."),
        ]
    );
}
