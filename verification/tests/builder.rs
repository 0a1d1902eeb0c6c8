use pretix_webhook::{BasicAuthCredential, WebhookServiceBuilder, DEFAULT_BODY_LIMIT};

fn event_policy(organizer: &str, event: &str) -> WebhookServiceBuilder {
    WebhookServiceBuilder::new()
        .allow_organizer(organizer)
        .unwrap()
        .allow_event(event)
        .unwrap()
}

#[test]
fn filter_values_reject_only_empty_or_padded_slugs() {
    for value in ["", " padded", "padded ", "\tpadded"] {
        assert!(WebhookServiceBuilder::new().allow_organizer(value).is_err());
        assert!(WebhookServiceBuilder::new().allow_event(value).is_err());
    }

    let non_pretix_slug = format!("legacy:value-{}", "x".repeat(300));
    assert!(
        WebhookServiceBuilder::new()
            .allow_organizer(&non_pretix_slug)
            .is_ok()
    );
    assert!(
        WebhookServiceBuilder::new()
            .allow_event(&non_pretix_slug)
            .is_ok()
    );
}

#[test]
fn debug_output_reports_policy_size_without_disclosing_it() {
    let config = event_policy("private-organizer", "private-event")
        .require_basic_auth(vec![BasicAuthCredential::new("private-user", "private-secret")]);

    let debug = config.debug_string();

    for value in [
        "private-organizer",
        "private-event",
        "private-user",
        "private-secret",
    ] {
        assert!(!debug.contains(value), "value leaked in {debug:?}");
    }
    assert_eq!(
        debug,
        "WebhookServiceBuilder { organizers: <1 REDACTED>, events: <1 REDACTED>, credentials: <1 REDACTED>, body_limit: 2097152 }"
    );
}

#[test]
fn filter_errors_name_the_dimension_but_not_the_value() {
    let error = WebhookServiceBuilder::new().allow_organizer("").err().unwrap();
    assert_eq!(error.to_string(), "invalid organizer slug: it must not be empty");
    let error = WebhookServiceBuilder::new().allow_event(" secret").err().unwrap();
    assert_eq!(
        error.to_string(),
        "invalid event slug: leading and trailing whitespace are not allowed"
    );
    assert!(WebhookServiceBuilder::new().allow_event("secret\u{3000}").is_err());
    assert!(WebhookServiceBuilder::new().allow_event("in ner").is_ok());
}

#[test]
fn repeated_slugs_are_counted_once_and_limits_are_rendered() {
    let config = WebhookServiceBuilder::new()
        .allow_organizer("a")
        .unwrap()
        .allow_organizer("a")
        .unwrap()
        .allow_organizer("b")
        .unwrap()
        .body_limit(1024);
    assert_eq!(config.body_limit_bytes(), 1024);
    assert_eq!(
        config.debug_string(),
        "WebhookServiceBuilder { organizers: <2 REDACTED>, events: <0 REDACTED>, credentials: <0 REDACTED>, body_limit: 1024 }"
    );
    assert_eq!(WebhookServiceBuilder::new().body_limit_bytes(), DEFAULT_BODY_LIMIT);
    assert_eq!(DEFAULT_BODY_LIMIT, 2 * 1024 * 1024);
}

#[test]
fn policies_of_the_same_size_render_the_same_text() {
    let first = event_policy("acmecorp", "democon")
        .require_basic_auth(vec![BasicAuthCredential::new("a", "b")]);
    let second = event_policy("other", "conference")
        .require_basic_auth(vec![BasicAuthCredential::new("c", "d")]);
    assert_eq!(first.debug_string(), second.debug_string());
}
