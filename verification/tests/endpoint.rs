use pretix_webhook::endpoint::format_validation_errors;
use pretix_webhook::{
    multi_mode, resolve_settings, simple_mode, CommandLineSettings, EnvironmentValue,
};
use pretix_webhook::{
    multi_endpoints, parse_credential, parse_path, semicolon_list, simple_endpoint, Admission,
    AllowedTarget, BasicAuthCredential, BodyRead, CredentialReference, EffectiveEndpoint,
    EndpointError, SimpleModeInputs, WebhookEntry,
};

fn strings(values: &[&str]) -> Vec<String> {
    values.iter().map(|v| (*v).to_owned()).collect()
}

fn no_simple_inputs() -> SimpleModeInputs {
    SimpleModeInputs { path: false, organizers: false, events: false, credentials: false }
}

fn entry(path: &str, organizers: &[&str], events: &[&str]) -> WebhookEntry {
    WebhookEntry {
        path: path.to_owned(),
        allow_organizers: strings(organizers),
        allow_events: strings(events),
        credential_env: Vec::new(),
    }
}

fn reference(variable: &str, value: Option<&str>) -> CredentialReference {
    CredentialReference { variable: variable.to_owned(), value: value.map(str::to_owned) }
}

fn simple(
    path: Option<&str>,
    organizers: &[&str],
    events: &[&str],
    environment_credentials: &[&str],
) -> Result<EffectiveEndpoint, EndpointError> {
    simple_endpoint(
        false,
        path.map(str::to_owned),
        &strings(organizers),
        &strings(events),
        Vec::new(),
        &strings(environment_credentials),
    )
}

fn status(endpoint: EffectiveEndpoint, payload: &str, authorization: Option<&str>) -> u16 {
    let (_, policy) = endpoint.into_parts();
    let service = policy.build(());
    match service.decide(BodyRead::Complete(payload.as_bytes().to_vec()), authorization) {
        Admission::Reject(status) => status.code(),
        Admission::Dispatch(_) => service.handled(true).code(),
    }
}

fn event_payload(organizer: &str, event: &str) -> String {
    format!(
        r#"{{
            "notification_id": 1,
            "organizer": "{organizer}",
            "event": "{event}",
            "action": "pretix.event.changed"
        }}"#
    )
}

fn multi_error(result: Result<Vec<EffectiveEndpoint>, EndpointError>) -> String {
    match result {
        Err(EndpointError::InvalidToml(message)) => message,
        Err(other) => panic!("unexpected {other:?}"),
        Ok(_) => panic!("configuration was accepted"),
    }
}

#[test]
fn empty_and_whitespace_padded_filter_values_are_rejected() {
    for (organizers, events) in [
        (vec![""], vec![]),
        (vec![" padded"], vec![]),
        (vec![], vec![""]),
        (vec![], vec!["padded "]),
    ] {
        assert!(simple(None, &organizers, &events, &[]).is_err());
    }
    let error = simple(None, &[" padded"], &[], &[]).err().unwrap();
    assert_eq!(
        error,
        EndpointError::InvalidSimple(
            "invalid organizer slug: leading and trailing whitespace are not allowed".to_owned()
        )
    );
}

#[test]
fn empty_and_malformed_credentials_are_rejected() {
    for credential in ["", "username", ":password", "username:"] {
        let message = parse_credential(credential).err().unwrap();
        assert!(
            message.contains("expected USERNAME:PASSWORD")
                || message.contains("username and password must be non-empty"),
            "unexpected error for {credential:?}: {message}"
        );
    }
    assert_eq!(parse_credential("username").err().unwrap(), "expected USERNAME:PASSWORD");
    assert_eq!(
        parse_credential("username:").err().unwrap(),
        "username and password must be non-empty"
    );
    assert!(parse_credential("user:pass:word").is_ok());
}

#[test]
fn command_line_paths_use_the_library_static_path_grammar() {
    for path in ["/", "/hooks/AZaz09-._~"] {
        let parsed = parse_path(path).unwrap();
        assert_eq!(parsed, path);
        let endpoint = simple(Some(&parsed), &[], &[], &[]).unwrap();
        assert_eq!(endpoint.path(), path);
    }

    for path in [
        "hooks",
        "/hooks/",
        "/hooks//pretix",
        "/hooks/./pretix",
        "/hooks/{organizer}",
        "/hooks?enabled=true",
        "/hooks%2Fpretix",
        "/hooks pretix",
    ] {
        let error = parse_path(path).err().unwrap();
        assert!(error.contains(path), "error did not identify {path:?}: {error}");
    }
}

#[test]
fn omitted_and_explicit_default_paths_have_the_same_effective_endpoint() {
    let defaulted = simple(None, &[], &[], &[]).unwrap();
    assert_eq!(defaulted.path(), "/webhook");
    let explicit = simple(Some("/webhook"), &[], &[], &[]).unwrap();
    assert_eq!(explicit.path(), "/webhook");
}

#[test]
fn filters_are_optional_and_default_to_unrestricted() {
    let endpoint = simple(None, &[], &[], &[]).unwrap();
    assert!(endpoint.is_unrestricted());
    assert!(endpoint.is_unauthenticated());
    assert_eq!(status(endpoint, &event_payload("any-organizer", "any-event"), None), 204);
}

#[test]
fn reads_server_policy_and_credentials_from_environment() {
    let organizers = semicolon_list(Some("acmecorp;other"));
    let events = semicolon_list(Some("democon;conference"));
    let credentials = semicolon_list(Some("old:secret;current:new-secret"));
    assert_eq!(organizers, ["acmecorp", "other"]);
    let endpoint = simple_endpoint(
        false,
        Some("/hooks/pretix".to_owned()),
        &organizers,
        &events,
        Vec::new(),
        &credentials,
    )
    .unwrap();
    assert_eq!(endpoint.path(), "/hooks/pretix");
    assert!(!endpoint.is_unrestricted());
    assert!(!endpoint.is_unauthenticated());

    let (_, policy) = endpoint.into_parts();
    let service = policy.build(());
    let payload = event_payload("acmecorp", "democon");
    for authorization in ["Basic b2xkOnNlY3JldA==", "Basic Y3VycmVudDpuZXctc2VjcmV0"] {
        match service.decide(BodyRead::Complete(payload.as_bytes().to_vec()), Some(authorization)) {
            Admission::Dispatch(_) => {}
            other => panic!("unexpected {other:?}"),
        }
    }
    match service.decide(BodyRead::Complete(payload.as_bytes().to_vec()), None) {
        Admission::Reject(status) => assert_eq!(status.code(), 401),
        other => panic!("unexpected {other:?}"),
    }
}

#[test]
fn organizer_event_and_credential_flags_are_independently_repeatable() {
    let endpoint = simple_endpoint(
        false,
        None,
        &strings(&["acmecorp", "other"]),
        &strings(&["democon", "conference"]),
        vec![
            parse_credential("old:secret").unwrap(),
            parse_credential("current:new-secret").unwrap(),
        ],
        &Vec::new(),
    )
    .unwrap();
    let (_, policy) = endpoint.into_parts();
    let payload = event_payload("other", "conference");
    for authorization in ["Basic b2xkOnNlY3JldA==", "Basic Y3VycmVudDpuZXctc2VjcmV0"] {
        let service = policy.duplicate().build(());
        match service.decide(BodyRead::Complete(payload.as_bytes().to_vec()), Some(authorization)) {
            Admission::Dispatch(_) => {}
            other => panic!("unexpected {other:?}"),
        }
    }
}

#[test]
fn environment_lists_split_on_semicolons() {
    assert!(semicolon_list(None).is_empty());
    assert_eq!(semicolon_list(Some("")), [""]);
    assert_eq!(semicolon_list(Some("a;;b;")), ["a", "", "b", ""]);
    let error = simple(None, &[], &[], &["user:password", "broken"]).err().unwrap();
    assert_eq!(
        error,
        EndpointError::InvalidSimple(
            "credential in PRETIX_WEBHOOK_CREDENTIALS is invalid: expected USERNAME:PASSWORD"
                .to_owned()
        )
    );
    assert_eq!(
        simple(None, &semicolon_list(Some("")).iter().map(String::as_str).collect::<Vec<_>>(), &[], &[])
            .err()
            .unwrap(),
        EndpointError::InvalidSimple("invalid organizer slug: it must not be empty".to_owned())
    );
}

#[test]
fn simple_mode_rejects_repeated_slugs_and_a_prefix() {
    assert_eq!(
        simple(None, &["a", "a"], &[], &[]).err().unwrap(),
        EndpointError::InvalidSimple("duplicate organizer slug".to_owned())
    );
    assert_eq!(
        simple(None, &[], &["e", "e"], &[]).err().unwrap(),
        EndpointError::InvalidSimple("duplicate event slug".to_owned())
    );
    let error = simple_endpoint(false, None, &Vec::new(), &Vec::new(), Vec::new(), &Vec::new());
    assert!(error.is_ok());
    let error = simple_endpoint(true, None, &Vec::new(), &Vec::new(), Vec::new(), &Vec::new())
        .err()
        .unwrap();
    assert_eq!(
        error,
        EndpointError::MixedMode("--prefix and PRETIX_WEBHOOK_PREFIX require --config".to_owned())
    );
    assert!(error.message().contains("require --config"));
}

#[test]
fn explicit_toml_config_builds_independently_filtered_public_routes() {
    let entries = vec![
        entry("sales/orders", &["acmecorp"], &["democon"]),
        entry("operations/checkins", &["acmecorp"], &["other"]),
    ];
    let endpoints =
        multi_endpoints(&no_simple_inputs(), None, Some("/incoming"), &entries).unwrap();
    let paths: Vec<&str> = endpoints.iter().map(EffectiveEndpoint::path).collect();
    assert_eq!(paths, ["/incoming/sales/orders", "/incoming/operations/checkins"]);
    assert!(endpoints.iter().all(EffectiveEndpoint::is_unauthenticated));
    assert!(!endpoints.iter().any(EffectiveEndpoint::is_unrestricted));

    let mut statuses = Vec::new();
    for endpoint in endpoints {
        statuses.push(status(endpoint, &event_payload("acmecorp", "democon"), None));
    }
    assert_eq!(statuses, [204, 404]);
}

#[test]
fn multi_prefix_precedence_is_cli_environment_toml_then_default() {
    let nested = vec![entry("nested/route", &[], &[])];
    let defaulted = multi_endpoints(&no_simple_inputs(), None, None, &nested).unwrap();
    assert_eq!(defaulted[0].path(), "/webhook/nested/route");

    let sales = vec![entry("sales/orders", &[], &[])];
    let from_toml = multi_endpoints(&no_simple_inputs(), None, Some("/incoming"), &sales).unwrap();
    assert_eq!(from_toml[0].path(), "/incoming/sales/orders");

    let overridden =
        multi_endpoints(&no_simple_inputs(), Some("/environment"), Some("/incoming"), &sales)
            .unwrap();
    assert_eq!(overridden[0].path(), "/environment/sales/orders");

    let from_cli =
        multi_endpoints(&no_simple_inputs(), Some("/command-line"), Some("/incoming"), &sales)
            .unwrap();
    assert_eq!(from_cli[0].path(), "/command-line/sales/orders");

    let rooted = vec![entry("top/level", &[], &[])];
    let from_root = multi_endpoints(&no_simple_inputs(), None, Some("/"), &rooted).unwrap();
    assert_eq!(from_root[0].path(), "/top/level");
}

#[test]
fn simple_and_multi_endpoint_inputs_are_mutually_exclusive() {
    let entries = vec![entry("nested/route", &[], &[])];
    for given in [
        SimpleModeInputs { path: true, ..no_simple_inputs() },
        SimpleModeInputs { organizers: true, ..no_simple_inputs() },
        SimpleModeInputs { events: true, ..no_simple_inputs() },
        SimpleModeInputs { credentials: true, ..no_simple_inputs() },
    ] {
        let message = multi_error(multi_endpoints(&given, None, None, &entries));
        assert!(message.contains("cannot be combined"));
    }
}

#[test]
fn strict_toml_errors_identify_the_source_file() {
    let message = multi_error(multi_endpoints(&no_simple_inputs(), None, None, &Vec::new()));
    assert!(message.contains("at least one [[webhooks]] entry is required"));
    assert_eq!(
        message,
        "configuration has semantic errors:\n- at least one [[webhooks]] entry is required"
    );
}

#[test]
fn aggregated_configuration_validation_precedes_listener_binding() {
    let mut first = entry("shared/route", &["private-organizer", "private-organizer"], &["private-event"]);
    first.credential_env = vec![
        reference("DUPLICATE_CREDENTIAL_REFERENCE", Some("private-user:private-secret")),
        reference("DUPLICATE_CREDENTIAL_REFERENCE", Some("private-user:private-secret")),
        reference("MISSING_CREDENTIAL_REFERENCE", None),
    ];
    let entries = vec![
        first,
        entry("shared/route", &[], &[]),
        entry("/absolute", &[], &[" padded"]),
    ];
    let message = multi_error(multi_endpoints(&no_simple_inputs(), None, Some("/incoming"), &entries));
    assert_eq!(
        message,
        "configuration has semantic errors:\n\
         - webhooks entry 1: duplicate organizer slug\n\
         - webhooks entry 1: duplicate credential environment-variable name\n\
         - webhooks entry 1 (\"/incoming/shared/route\"): credential environment variable \"MISSING_CREDENTIAL_REFERENCE\" is missing or not valid Unicode\n\
         - webhooks entry 2: duplicate resolved webhook path \"/incoming/shared/route\" (first used by entry 1)\n\
         - webhooks entry 3: invalid relative webhook path \"/absolute\": leading slashes are not allowed\n\
         - webhooks entry 3: invalid event slug: leading and trailing whitespace are not allowed"
    );
    for value in ["private-organizer", "private-event", "private-user", "private-secret"] {
        assert!(!message.contains(value), "value leaked in {message:?}");
    }
    assert!(!message.contains("\\n"));
}

#[test]
fn invalid_prefixes_are_reported_and_overridden_prefixes_still_checked() {
    let entries = vec![entry("a", &[], &[]), entry("a", &[], &[])];
    let message = multi_error(multi_endpoints(&no_simple_inputs(), None, Some("/bad/"), &entries));
    assert_eq!(
        message,
        "configuration has semantic errors:\n\
         - invalid webhook prefix \"/bad/\": trailing slashes are not allowed\n\
         - webhooks entry 2: duplicate webhook route (first used by entry 1; resolved path unavailable because the prefix is invalid)"
    );

    let single = vec![entry("a", &[], &[])];
    let message =
        multi_error(multi_endpoints(&no_simple_inputs(), Some("/good"), Some("bad"), &single));
    assert_eq!(
        message,
        "configuration has semantic errors:\n\
         - overridden TOML prefix is invalid: invalid webhook prefix \"bad\": it must start with '/'"
    );
}

#[test]
fn credential_references_resolve_to_credentials() {
    let mut authenticated = entry("private", &[], &[]);
    authenticated.credential_env = vec![
        reference("FIRST_OLD_CREDENTIAL", Some("old:secret")),
        reference("FIRST_CURRENT_CREDENTIAL", Some("current:new-secret")),
    ];
    let entries = vec![authenticated, entry("public", &["acmecorp"], &[])];
    let mut endpoints =
        multi_endpoints(&no_simple_inputs(), None, Some("/incoming"), &entries).unwrap();
    let public = endpoints.pop().unwrap();
    let private = endpoints.pop().unwrap();
    assert!(private.is_unrestricted());
    assert!(!private.is_unauthenticated());
    assert!(!public.is_unrestricted());
    assert!(public.is_unauthenticated());
    assert_eq!(
        status(private, &event_payload("acmecorp", "democon"), Some("Basic b2xkOnNlY3JldA==")),
        204
    );

    let mut malformed = entry("first", &[], &[]);
    malformed.credential_env = vec![reference("FIRST_OLD_CREDENTIAL", Some("private-user-without-a-password"))];
    let message = multi_error(multi_endpoints(&no_simple_inputs(), None, Some("/incoming"), &vec![malformed]));
    assert_eq!(
        message,
        "configuration has semantic errors:\n\
         - webhooks entry 1 (\"/incoming/first\"): credential environment variable \"FIRST_OLD_CREDENTIAL\" is invalid: expected USERNAME:PASSWORD"
    );
    assert!(!message.contains("private-user-without-a-password"));
}

#[test]
fn validation_reports_render_one_problem_per_line() {
    assert_eq!(
        format_validation_errors(&strings(&["a", "b"])),
        "configuration has semantic errors:\n- a\n- b"
    );
    assert_eq!(format_validation_errors(&Vec::new()), "configuration has semantic errors:\n- ");
}

#[test]
fn allowed_targets_name_an_organizer_and_an_event() {
    assert_eq!(
        AllowedTarget::parse("acmecorp/democon"),
        Ok(AllowedTarget::Event { organizer: "acmecorp".to_owned(), event: "democon".to_owned() })
    );
    assert_eq!(
        "acmecorp/*".parse::<AllowedTarget>(),
        Ok(AllowedTarget::AllEvents { organizer: "acmecorp".to_owned() })
    );
    assert_eq!(
        AllowedTarget::parse("acmecorp"),
        Err("expected ORGANIZER/EVENT or ORGANIZER/*".to_owned())
    );
    for value in ["/democon", "acmecorp/", "acmecorp/democon/extra"] {
        assert_eq!(
            AllowedTarget::parse(value),
            Err("organizer and event slugs must be non-empty and contain no '/'".to_owned())
        );
    }
}

#[test]
fn credentials_hash_the_pair_split_at_the_first_colon() {
    let parsed = parse_credential("user:pass:word").unwrap();
    let policy = pretix_webhook::WebhookServiceBuilder::new().require_basic_auth(vec![parsed]);
    // "user:pass:word" in base64
    assert!(policy.authenticates(Some("Basic dXNlcjpwYXNzOndvcmQ=")));
    let direct = pretix_webhook::WebhookServiceBuilder::new()
        .require_basic_auth(vec![BasicAuthCredential::new("user", "pass:word")]);
    assert!(direct.authenticates(Some("Basic dXNlcjpwYXNzOndvcmQ=")));
}

#[test]
fn rejects_invalid_endpoint_configuration_before_binding() {
    let padded = simple(None, &[" padded"], &[], &[]).err().unwrap();
    assert!(padded.message().contains("leading and trailing whitespace are not allowed"));
    assert!(!padded.message().contains(" padded"), "filter value leaked: {padded:?}");

    let path = parse_path("hooks").err().unwrap();
    assert!(path.contains("it must start with '/'"));

    let credential = parse_credential("malformed").err().unwrap();
    assert!(credential.contains("expected USERNAME:PASSWORD"));

    let empty = multi_error(multi_endpoints(&no_simple_inputs(), None, None, &Vec::new()));
    assert!(empty.contains("at least one [[webhooks]] entry is required"));
}

#[test]
fn credential_startup_diagnostics_identify_the_reference_without_leaking_its_value() {
    let mut first = entry("first", &[], &[]);
    first.credential_env = vec![
        reference("FIRST_OLD_CREDENTIAL", Some("private-user-without-a-password")),
        reference("FIRST_CURRENT_CREDENTIAL", Some("valid:credential")),
    ];
    let mut second = entry("second", &[], &[]);
    second.credential_env = vec![reference("SECOND_CREDENTIAL", None)];
    let message = multi_error(multi_endpoints(
        &no_simple_inputs(),
        None,
        Some("/incoming"),
        &vec![first, second],
    ));
    assert!(message.contains("/incoming/first"), "{message:?}");
    assert!(message.contains("FIRST_OLD_CREDENTIAL"), "{message:?}");
    assert!(message.contains("SECOND_CREDENTIAL"), "{message:?}");
    assert!(!message.contains("FIRST_CURRENT_CREDENTIAL"), "{message:?}");
    assert!(!message.contains("private-user-without-a-password"), "{message:?}");
    assert!(!message.contains("valid:credential"), "{message:?}");
}

fn settings(
    organizers: &[&str],
    credentials: Vec<BasicAuthCredential>,
    organizers_environment: EnvironmentValue,
    credentials_environment: EnvironmentValue,
) -> CommandLineSettings {
    CommandLineSettings {
        prefix: None,
        path: None,
        organizers: strings(organizers),
        events: Vec::new(),
        credentials,
        organizers_environment,
        events_environment: EnvironmentValue::Unset,
        credentials_environment,
    }
}

#[test]
fn flags_win_over_environment_lists_and_unset_lists_stay_empty() {
    let resolved = resolve_settings(settings(
        &["flag-organizer"],
        Vec::new(),
        EnvironmentValue::Text("acmecorp;other".to_owned()),
        EnvironmentValue::Text("old:secret".to_owned()),
    ))
    .unwrap();
    assert_eq!(resolved.organizers, ["flag-organizer"]);
    assert!(resolved.events.is_empty());
    assert_eq!(resolved.environment_credentials, ["old:secret"]);

    let resolved = resolve_settings(settings(
        &[],
        vec![BasicAuthCredential::new("user", "password")],
        EnvironmentValue::Text("acmecorp;other".to_owned()),
        EnvironmentValue::NotUnicode,
    ))
    .unwrap();
    assert_eq!(resolved.organizers, ["acmecorp", "other"]);
    assert!(resolved.environment_credentials.is_empty());
    assert_eq!(resolved.credentials.len(), 1);
}

#[test]
fn unreadable_environment_lists_are_reported_in_order() {
    let error = resolve_settings(settings(
        &[],
        Vec::new(),
        EnvironmentValue::NotUnicode,
        EnvironmentValue::NotUnicode,
    ))
    .err()
    .unwrap();
    assert_eq!(
        error,
        EndpointError::InvalidSimple(
            "environment variable \"PRETIX_WEBHOOK_ALLOW_ORGANIZERS\" is not valid Unicode"
                .to_owned()
        )
    );
    assert!(resolve_settings(settings(
        &["flag"],
        Vec::new(),
        EnvironmentValue::NotUnicode,
        EnvironmentValue::Unset,
    ))
    .is_ok());
}

#[test]
fn the_modes_take_resolved_settings() {
    let resolved = resolve_settings(settings(
        &[],
        Vec::new(),
        EnvironmentValue::Unset,
        EnvironmentValue::Unset,
    ))
    .unwrap();
    let endpoints = simple_mode(resolved).unwrap();
    assert_eq!(endpoints.len(), 1);
    assert_eq!(endpoints[0].path(), "/webhook");

    let mut with_prefix =
        settings(&[], Vec::new(), EnvironmentValue::Unset, EnvironmentValue::Unset);
    with_prefix.prefix = Some("/multi".to_owned());
    let resolved = resolve_settings(with_prefix).unwrap();
    assert!(matches!(simple_mode(resolved), Err(EndpointError::MixedMode(_))));

    let mut with_prefix =
        settings(&[], Vec::new(), EnvironmentValue::Unset, EnvironmentValue::Unset);
    with_prefix.prefix = Some("/command-line".to_owned());
    let resolved = resolve_settings(with_prefix).unwrap();
    let endpoints =
        multi_mode(&resolved, Some("/incoming"), &vec![entry("sales/orders", &[], &[])]).unwrap();
    assert_eq!(endpoints[0].path(), "/command-line/sales/orders");

    let resolved = resolve_settings(settings(
        &[],
        Vec::new(),
        EnvironmentValue::Text("acmecorp".to_owned()),
        EnvironmentValue::Unset,
    ))
    .unwrap();
    let message = multi_error(multi_mode(&resolved, None, &vec![entry("a", &[], &[])]));
    assert!(message.contains("simple organizer filter inputs cannot be combined with --config"));
}

#[test]
fn documents_differing_only_in_slugs_and_secrets_get_the_same_report() {
    let report = |organizer: &str, secret: &str| {
        let mut first = entry("shared", &[organizer, organizer], &[" padded"]);
        first.credential_env = vec![reference("SECRET", Some(secret))];
        multi_error(multi_endpoints(
            &no_simple_inputs(),
            None,
            Some("/incoming"),
            &vec![first, entry("shared", &[], &[])],
        ))
    };
    assert_eq!(report("acmecorp", "no-colon-here"), report("private", "other-value"));
}
