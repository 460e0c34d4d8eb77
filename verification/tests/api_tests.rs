use cc2_openwebui::api::detection::update_schedule;
use cc2_openwebui::api::notifications::{
    create_destination, delete_destination, format_id, gen_id, test_destination,
    update_destination, DestinationKind, NotificationDestination,
};
use cc2_openwebui::api::obico::{
    ml_api_url, start_container_answer, stream_on_launch, stream_on_ready, stream_on_status,
    test_url_target, ContainerStatus, TestObicoUrlRequest,
};
use cc2_openwebui::error::AppError;
use cc2_openwebui::json::JsonValue;
use cc2_openwebui::notifications::discord::{check_response, prepare_send, NotificationError};

fn dest(id: &str, kind: DestinationKind, name: &str) -> NotificationDestination<String> {
    NotificationDestination { id: id.to_string(), kind, settings: name.to_string() }
}

fn validation(e: AppError) -> String {
    match e {
        AppError::Validation(m) => m,
    }
}

#[test]
fn ids_are_eight_hex_digits() {
    assert_eq!(format_id(0), "00000000");
    assert_eq!(format_id(0xdeadbeef), "deadbeef");
    assert_eq!(format_id(255), "000000ff");
    let id = gen_id();
    assert_eq!(id.len(), 8);
    assert!(id.chars().all(|c| c.is_ascii_hexdigit() && !c.is_ascii_uppercase()));
}

#[test]
fn destination_lifecycle() {
    let mut list = vec![dest("a", DestinationKind::Ntfy, "first")];
    let answer = create_destination(&mut list, dest("ignored", DestinationKind::Discord, "second"));
    assert_eq!(list.len(), 2);
    let new_id = list[1].id.clone();
    assert_eq!(new_id.len(), 8);
    assert_eq!(list[1].settings, "second");
    assert_eq!(answer.get("id"), Some(&JsonValue::Str(new_id.clone())));
    assert_eq!(answer.get("success"), Some(&JsonValue::Bool(true)));

    let r = update_destination(&mut list, "a", dest("zzz", DestinationKind::Webhook, "renamed"));
    assert!(r.is_ok());
    assert_eq!(list[0].id, "a");
    assert_eq!(list[0].settings, "renamed");
    assert!(matches!(list[0].kind, DestinationKind::Webhook));

    let missing = update_destination(&mut list, "nope", dest("x", DestinationKind::Ntfy, "x"));
    assert_eq!(validation(missing.unwrap_err()), "destination nope not found");

    assert_eq!(validation(test_destination(&list, "a").unwrap_err()), "webhook test not supported yet");
    assert_eq!(test_destination(&list, &new_id).ok(), Some(1));
    assert_eq!(validation(test_destination(&list, "b").unwrap_err()), "destination b not found");

    assert!(delete_destination(&mut list, "a").is_ok());
    assert_eq!(list.len(), 1);
    assert_eq!(validation(delete_destination(&mut list, "a").unwrap_err()), "destination a not found");
}

#[test]
fn delete_removes_every_copy() {
    let mut list = vec![
        dest("d", DestinationKind::Ntfy, "1"),
        dest("e", DestinationKind::Ntfy, "2"),
        dest("d", DestinationKind::Discord, "3"),
    ];
    assert!(delete_destination(&mut list, "d").is_ok());
    assert_eq!(list.len(), 1);
    assert_eq!(list[0].settings, "2");
}

#[test]
fn obico_url_test_requests() {
    let ok = test_url_target(&TestObicoUrlRequest { url: "  http://x:3333/p/ ".to_string() });
    assert_eq!(ok.ok().as_deref(), Some("http://x:3333/p/"));
    let empty = test_url_target(&TestObicoUrlRequest { url: " \t ".to_string() });
    assert_eq!(validation(empty.unwrap_err()), "Obico URL is required");
}

#[test]
fn container_start_messages() {
    assert_eq!(ml_api_url(3333), "http://127.0.0.1:3333/p/");
    let answer = start_container_answer(true, 3333).ok().unwrap();
    assert_eq!(answer.get("url"), Some(&JsonValue::Str("http://127.0.0.1:3333/p/".to_string())));
    assert_eq!(
        validation(start_container_answer(false, 3333).unwrap_err()),
        "Container started but ML API did not become reachable within 60s"
    );
    assert_eq!(
        stream_on_status(ContainerStatus::Running, 3333),
        Some(("ready".to_string(), "http://127.0.0.1:3333/p/".to_string()))
    );
    assert_eq!(
        stream_on_status(ContainerStatus::Unavailable, 3333),
        Some(("fail".to_string(), "Docker is not available on this host.".to_string()))
    );
    assert_eq!(stream_on_status(ContainerStatus::Other, 3333), None);
    assert_eq!(stream_on_launch(Ok(())).0, "log");
    assert_eq!(stream_on_launch(Err("boom".to_string())), ("fail".to_string(), "boom".to_string()));
    assert_eq!(stream_on_ready(true, 1).1, "http://127.0.0.1:1/p/");
    assert_eq!(stream_on_ready(false, 1).0, "fail");
}

#[test]
fn schedule_updates_respect_minimums() {
    assert_eq!(update_schedule(10, 3, Some(2), Some(0)), (5, 1));
    assert_eq!(update_schedule(10, 3, Some(30), None), (30, 3));
    assert_eq!(update_schedule(10, 3, None, Some(4)), (10, 4));
}

#[test]
fn discord_sending() {
    match prepare_send(Some("https://hook"), "T", "B", 7) {
        Ok((url, payload)) => {
            assert_eq!(url, "https://hook");
            match payload.get("embeds") {
                Some(JsonValue::Array(items)) => {
                    assert_eq!(items.len(), 1);
                    assert_eq!(items[0].get("title"), Some(&JsonValue::Str("T".to_string())));
                    assert_eq!(items[0].get("description"), Some(&JsonValue::Str("B".to_string())));
                    assert_eq!(items[0].get("color"), Some(&JsonValue::UInt(7)));
                }
                other => panic!("unexpected {:?}", other),
            }
        }
        Err(_) => panic!("expected a request"),
    }
    for missing in [None, Some("")] {
        match prepare_send(missing, "T", "B", 1) {
            Err(NotificationError::DiscordFailed(m)) => assert_eq!(m, "webhook URL is not configured"),
            Ok(_) => panic!("expected refusal"),
        }
    }
    assert!(check_response(204, "204 No Content").is_ok());
    match check_response(404, "404 Not Found") {
        Err(NotificationError::DiscordFailed(m)) => assert_eq!(m, "server returned 404 Not Found"),
        Ok(()) => panic!("expected failure"),
    }
}
