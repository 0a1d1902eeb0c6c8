use pretix_webhook::{Admission, BasicAuthCredential, WebhookConfig};

fn payload(organizer: &str, event: &str) -> String {
    format!(
        r#"{{"notification_id":1,"organizer":"{organizer}","event":"{event}","action":"pretix.event.changed"}}"#
    )
}

fn code(config: &WebhookConfig, body: &str, authorization: Option<&str>) -> u16 {
    match config.decide(body.as_bytes(), authorization) {
        Admission::Reject(status) => status.code(),
        Admission::Dispatch(_) => 204,
    }
}

#[test]
fn a_new_config_accepts_every_organizer_and_event() {
    let config = WebhookConfig::new();
    assert_eq!(code(&config, &payload("acmecorp", "democon"), None), 204);
    assert_eq!(code(&config, &payload("any-organizer", "any-event"), None), 204);
    let plugin = r#"{"notification_id":2,"action":"pretix.plugin.unknown"}"#;
    assert_eq!(code(&config, plugin, None), 204);
    assert!(config.authenticates(None));
    let open = WebhookConfig::new().allow_everything();
    assert_eq!(code(&open, &payload("acmecorp", "democon"), None), 204);
}

#[test]
fn unreadable_event_slugs_fail_an_event_list() {
    let config = WebhookConfig::new().allow_event("acmecorp", "democon");
    for unreadable_event in ["12345", "null", "[\"democon\"]"] {
        let body = format!(
            r#"{{"notification_id":1,"organizer":"acmecorp","event":{unreadable_event},"action":"pretix.plugin.unknown"}}"#
        );
        assert_eq!(code(&config, &body, None), 404, "{unreadable_event}");
    }
    let organizer_level =
        r#"{"notification_id":1,"organizer":"acmecorp","action":"pretix.plugin.organizer-level"}"#;
    assert_eq!(code(&config, organizer_level, None), 204);
    let every_event = WebhookConfig::new().allow_all_events("acmecorp");
    let body = r#"{"notification_id":1,"organizer":"acmecorp","event":null,"action":"pretix.plugin.unknown"}"#;
    assert_eq!(code(&every_event, body, None), 204);
}

#[test]
fn per_organizer_events_are_allowed_exactly() {
    let config = WebhookConfig::new()
        .allow_event("acmecorp", "democon")
        .allow_all_events("other");
    assert_eq!(code(&config, &payload("acmecorp", "democon"), None), 204);
    assert_eq!(code(&config, &payload("acmecorp", "conference"), None), 404);
    assert_eq!(code(&config, &payload("other", "anything"), None), 204);
    assert_eq!(code(&config, &payload("third", "democon"), None), 404);
    let organizer_level = r#"{"notification_id":1,"organizer":"acmecorp","customer":"c","action":"pretix.customer.created"}"#;
    assert_eq!(code(&config, organizer_level, None), 204);
}

#[test]
fn allowing_everything_clears_restrictions_and_a_later_event_restores_them() {
    let config = WebhookConfig::new()
        .allow_event("acmecorp", "democon")
        .allow_everything()
        .allow_event("other", "conference");
    assert_eq!(code(&config, &payload("acmecorp", "democon"), None), 404);
    assert_eq!(code(&config, &payload("other", "conference"), None), 204);
}

#[test]
fn config_authentication_precedes_parsing() {
    let config = WebhookConfig::new()
        .allow_everything()
        .require_basic_auth(vec![BasicAuthCredential::new("user", "secret")]);
    assert_eq!(code(&config, "not json", None), 401);
    assert_eq!(code(&config, "not json", Some("Basic dXNlcjpzZWNyZXQ=")), 400);
    assert_eq!(code(&config, &payload("a", "b"), Some("Basic dXNlcjpzZWNyZXQ=")), 204);
    assert!(config.authenticates(Some("Basic dXNlcjpzZWNyZXQ=")));
    assert!(!config.authenticates(Some("Basic d3Jvbmc6d3Jvbmc=")));
}

#[test]
fn config_handler_outcomes_map_to_retry_aware_statuses() {
    let config = WebhookConfig::new();
    assert_eq!(config.handled(true).code(), 204);
    assert_eq!(config.handled(false).code(), 500);
    assert_eq!(config.handled(false).challenge(), None);
}

#[test]
fn allowing_an_organizer_again_keeps_one_entry() {
    let config = WebhookConfig::new()
        .allow_event("acmecorp", "democon")
        .allow_event("acmecorp", "conference")
        .allow_all_events("other")
        .allow_event("other", "ignored");
    assert_eq!(code(&config, &payload("acmecorp", "democon"), None), 204);
    assert_eq!(code(&config, &payload("acmecorp", "conference"), None), 204);
    assert_eq!(code(&config, &payload("acmecorp", "other"), None), 404);
    assert_eq!(code(&config, &payload("other", "anything"), None), 204);
}
