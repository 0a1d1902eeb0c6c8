use pretix_webhook::{
    validate_absolute_webhook_path, validate_webhook_prefix, WebhookPathSet,
};

#[test]
fn duplicate_resolved_paths_are_rejected_before_router_merge() {
    let mut paths = WebhookPathSet::new();
    assert_eq!(paths.register_relative("/hooks", "pretix/events").unwrap(), "/hooks/pretix/events");

    let result = paths.register_relative("/hooks", "pretix/events");

    let Err(error) = result else {
        panic!("duplicate route was accepted");
    };
    assert!(error.to_string().contains("/hooks/pretix/events"));
    assert_eq!(error.to_string(), "duplicate webhook path \"/hooks/pretix/events\"");
}

#[test]
fn construction_and_registration_enforce_the_shared_path_grammar() {
    for prefix in ["hooks", "/hooks/", "/hooks/{organizer}"] {
        let Err(error) = validate_webhook_prefix(prefix) else {
            panic!("invalid prefix {prefix:?} was accepted");
        };
        assert!(error.to_string().contains(prefix));
    }

    for relative_path in ["", "/pretix", "pretix/", "pretix/{event}"] {
        let mut paths = WebhookPathSet::new();
        let Err(error) = paths.register_relative("/hooks", relative_path) else {
            panic!("invalid relative path {relative_path:?} was accepted");
        };
        assert!(error.to_string().contains(relative_path));
        assert!(!paths.contains("/hooks/"));
    }
}

#[test]
fn exact_router_construction_returns_invalid_paths_as_errors() {
    let Err(error) = validate_absolute_webhook_path("/hooks/{organizer}") else {
        panic!("dynamic route was accepted");
    };
    assert!(error.to_string().contains("/hooks/{organizer}"));
}

#[test]
fn exact_path_registration_rejects_collisions_and_invalid_paths() {
    let mut paths = WebhookPathSet::new();
    paths.register_at("/hooks/sales/primary").unwrap();
    paths.register_at("/audit").unwrap();
    assert!(paths.contains("/audit"));
    assert!(paths.contains("/hooks/sales/primary"));
    assert!(!paths.contains("/hooks"));

    let mut registered = WebhookPathSet::new();
    registered.register_at("/hooks").unwrap();
    let Err(error) = registered.register_at("/hooks") else {
        panic!("duplicate exact path was accepted");
    };
    assert!(error.to_string().contains("/hooks"));

    let Err(error) = WebhookPathSet::new().register_at("hooks/{organizer}") else {
        panic!("invalid exact path was accepted");
    };
    assert!(error.to_string().contains("hooks/{organizer}"));
}

#[test]
fn root_prefixed_paths_resolve_beneath_the_root() {
    let mut paths = WebhookPathSet::new();
    assert_eq!(paths.register_relative("/", "pretix/events").unwrap(), "/pretix/events");
    assert!(paths.contains("/pretix/events"));
    assert!(paths.register_at("/pretix/events").is_err());
    assert!(paths.register_at("/health").is_ok());
}
