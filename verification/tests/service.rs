use pretix_webhook::{
    Admission, BasicAuthCredential, BodyRead, WebhookService, WebhookServiceBuilder, WebhookStatus,
};

fn event_policy(organizer: &str, event: &str) -> WebhookServiceBuilder {
    WebhookServiceBuilder::new()
        .allow_organizer(organizer)
        .unwrap()
        .allow_event(event)
        .unwrap()
}

fn status(service: &WebhookService<()>, payload: &str, authorization: Option<&str>) -> u16 {
    match service.decide(BodyRead::Complete(payload.as_bytes().to_vec()), authorization) {
        Admission::Reject(status) => status.code(),
        Admission::Dispatch(_) => service.handled(true).code(),
    }
}

fn event_payload(organizer: &str, event: &str) -> String {
    format!(
        r#"{{
            "notification_id": 1,
            "organizer": "{organizer}",
            "event": "{event}",
            "action": "pretix.event.changed"
        }}"#
    )
}

#[test]
fn accepted_webhook_is_delivered_to_the_handler() {
    let service = event_policy("acmecorp", "democon").build(());
    let payload = r#"{
        "notification_id": 123455,
        "organizer": "acmecorp",
        "event": "democon",
        "code": "ABC23",
        "action": "pretix.event.order.placed"
    }"#;
    match service.decide(BodyRead::Complete(payload.as_bytes().to_vec()), None) {
        Admission::Dispatch(event) => assert_eq!(event.notification_id(), 123_455),
        other => panic!("unexpected {other:?}"),
    }
    assert_eq!(service.handled(true), WebhookStatus::NoContent);
    assert_eq!(service.handled(true).code(), 204);
}

#[test]
fn unsupported_organizers_and_events_are_hidden_with_not_found() {
    let service = event_policy("acmecorp", "democon").build(());
    for (organizer, event) in [("other", "democon"), ("acmecorp", "other")] {
        let payload = format!(
            r#"{{
                "notification_id": 1,
                "organizer": "{organizer}",
                "event": "{event}",
                "code": "ABC23",
                "action": "pretix.event.order.paid"
            }}"#
        );
        assert_eq!(status(&service, &payload, None), 404);
    }
}

#[test]
fn new_config_accepts_every_organizer_and_event() {
    let service = WebhookServiceBuilder::new().build(());
    for payload in [
        r#"{
            "notification_id": 1,
            "organizer": "previously-unknown",
            "event": "future-event",
            "action": "pretix.event.changed"
        }"#,
        r#"{
            "notification_id": 2,
            "action": "pretix.plugin.unknown"
        }"#,
    ] {
        assert_eq!(status(&service, payload, None), 204);
    }
}

#[test]
fn organizer_and_event_filters_are_independent() {
    let cases = [
        (WebhookServiceBuilder::new().allow_organizer("acmecorp").unwrap(), "acmecorp", "any-event", 204),
        (WebhookServiceBuilder::new().allow_organizer("acmecorp").unwrap(), "other", "any-event", 404),
        (WebhookServiceBuilder::new().allow_event("democon").unwrap(), "any-organizer", "democon", 204),
        (WebhookServiceBuilder::new().allow_event("democon").unwrap(), "any-organizer", "other", 404),
    ];
    for (config, organizer, event, expected) in cases {
        let service = config.build(());
        assert_eq!(status(&service, &event_payload(organizer, event), None), expected);
    }
}

#[test]
fn organizer_level_payloads_enforce_only_the_organizer_filter() {
    let config = event_policy("acmecorp", "event-filter-is-not-applicable");
    for (organizer, expected) in [("acmecorp", 204), ("other", 404)] {
        let service = config.duplicate().build(());
        let payload = format!(
            r#"{{
                "notification_id": 1,
                "organizer": "{organizer}",
                "customer": "customer-1",
                "action": "pretix.customer.created"
            }}"#
        );
        assert_eq!(status(&service, &payload, None), expected);
    }
}

#[test]
fn unknown_payloads_cannot_bypass_applicable_filters_with_missing_fields() {
    let organizer_filtered = WebhookServiceBuilder::new().allow_organizer("acmecorp").unwrap().build(());
    let missing_organizer = r#"{
        "notification_id": 1,
        "event": "democon",
        "action": "pretix.plugin.unknown"
    }"#;
    assert_eq!(status(&organizer_filtered, missing_organizer, None), 404);

    let event_filtered = WebhookServiceBuilder::new().allow_event("democon").unwrap().build(());
    let organizer_level = r#"{
        "notification_id": 1,
        "organizer": "acmecorp",
        "action": "pretix.plugin.organizer-level"
    }"#;
    assert_eq!(status(&event_filtered, organizer_level, None), 204);

    for unreadable_event in ["12345", "null", "[\"democon\"]"] {
        let payload = format!(
            r#"{{
                "notification_id": 1,
                "organizer": "acmecorp",
                "event": {unreadable_event},
                "action": "pretix.plugin.unknown"
            }}"#
        );
        assert_eq!(
            status(&event_filtered, &payload, None),
            404,
            "event field {unreadable_event} bypassed the event filter"
        );
    }
}

#[test]
fn filter_matching_is_exact_and_case_sensitive() {
    let service = event_policy("AcmeCorp", "DemoCon").build(());
    for (organizer, event, expected) in [
        ("AcmeCorp", "DemoCon", 204),
        ("acmecorp", "DemoCon", 404),
        ("AcmeCorp", "democon", 404),
    ] {
        assert_eq!(status(&service, &event_payload(organizer, event), None), expected);
    }
}

#[test]
fn any_configured_basic_auth_credential_is_accepted() {
    let service = WebhookServiceBuilder::new()
        .require_basic_auth(vec![
            BasicAuthCredential::new("old", "secret"),
            BasicAuthCredential::new("current", "new-secret"),
        ])
        .build(());
    let payload = event_payload("acmecorp", "democon");
    for authorization in [None, Some("Basic d3Jvbmc6d3Jvbmc=")] {
        match service.decide(BodyRead::Complete(payload.as_bytes().to_vec()), authorization) {
            Admission::Reject(status) => {
                assert_eq!(status.code(), 401);
                assert_eq!(status.challenge(), Some("Basic realm=\"pretix-webhook\""));
            }
            other => panic!("unexpected {other:?}"),
        }
    }
    for authorization in ["Basic b2xkOnNlY3JldA==", "Basic Y3VycmVudDpuZXctc2VjcmV0"] {
        assert_eq!(status(&service, &payload, Some(authorization)), 204);
    }
}

#[test]
fn authorization_scheme_is_case_insensitive_but_the_credential_is_exact() {
    let policy = WebhookServiceBuilder::new()
        .require_basic_auth(vec![BasicAuthCredential::new("old", "secret")]);
    assert!(policy.authenticates(Some("basic b2xkOnNlY3JldA==")));
    assert!(policy.authenticates(Some("BASIC b2xkOnNlY3JldA==")));
    assert!(!policy.authenticates(Some("Bearer b2xkOnNlY3JldA==")));
    assert!(!policy.authenticates(Some("Basic b2xkOnNlY3JldA")));
    assert!(!policy.authenticates(Some("Basicb2xkOnNlY3JldA==")));
    assert!(!policy.authenticates(None));
    assert!(WebhookServiceBuilder::new().authenticates(None));
}

#[test]
fn empty_basic_auth_credentials_disable_authentication() {
    let service = WebhookServiceBuilder::new().require_basic_auth(Vec::new()).build(());
    assert_eq!(status(&service, &event_payload("acmecorp", "democon"), None), 204);
}

#[test]
fn malformed_payload_returns_bad_request() {
    let service = WebhookServiceBuilder::new().build(());
    assert_eq!(status(&service, "not json", None), 400);
}

#[test]
fn oversized_and_failed_bodies_are_answered_before_anything_else() {
    let service = WebhookServiceBuilder::new()
        .require_basic_auth(vec![BasicAuthCredential::new("user", "secret")])
        .build(());
    match service.decide(BodyRead::TooLarge, None) {
        Admission::Reject(status) => assert_eq!(status.code(), 413),
        other => panic!("unexpected {other:?}"),
    }
    match service.decide(BodyRead::Failed, None) {
        Admission::Reject(status) => assert_eq!(status.code(), 400),
        other => panic!("unexpected {other:?}"),
    }
    assert_eq!(service.body_limit(), 2 * 1024 * 1024);
    assert_eq!(WebhookServiceBuilder::new().body_limit(10).build(()).body_limit(), 10);
}

#[test]
fn authentication_is_checked_before_payload_parsing() {
    let service = WebhookServiceBuilder::new()
        .require_basic_auth(vec![BasicAuthCredential::new("user", "secret")])
        .build(());
    assert_eq!(status(&service, "not json", None), 401);
    assert_eq!(status(&service, "not json", Some("Basic dXNlcjpzZWNyZXQ=")), 400);
}

#[test]
fn handler_failure_returns_retryable_server_error() {
    let service = WebhookServiceBuilder::new().build(());
    assert_eq!(service.handled(false), WebhookStatus::InternalServerError);
    assert_eq!(service.handled(false).code(), 500);
    assert_eq!(service.handled(false).challenge(), None);
}

#[test]
fn authentication_and_filters_are_isolated_per_route() {
    let first = WebhookServiceBuilder::new()
        .allow_organizer("acmecorp")
        .unwrap()
        .allow_event("democon")
        .unwrap()
        .require_basic_auth(vec![BasicAuthCredential::new("alpha", "one")])
        .build(());
    let second = WebhookServiceBuilder::new()
        .allow_organizer("other")
        .unwrap()
        .allow_event("conference")
        .unwrap()
        .require_basic_auth(vec![BasicAuthCredential::new("beta", "two")])
        .build(());

    assert_eq!(status(&second, &event_payload("other", "conference"), Some("Basic YWxwaGE6b25l")), 401);
    assert_eq!(status(&first, &event_payload("other", "conference"), Some("Basic YWxwaGE6b25l")), 404);
    assert_eq!(status(&first, &event_payload("acmecorp", "democon"), Some("Basic YWxwaGE6b25l")), 204);
    assert_eq!(status(&second, &event_payload("other", "conference"), Some("Basic YmV0YTp0d28=")), 204);
}
