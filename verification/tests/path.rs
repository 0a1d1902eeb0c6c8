use pretix_webhook::{
    resolve_webhook_path, validate_absolute_webhook_path, validate_relative_webhook_path,
    validate_webhook_prefix,
};

#[test]
fn path_valid_static_paths_are_accepted_and_resolved_canonically() {
    for path in ["/", "/hooks", "/hooks/AZaz09-._~"] {
        validate_absolute_webhook_path(path).unwrap();
        validate_webhook_prefix(path).unwrap();
    }

    for path in ["pretix", "integrations/pretix/AZaz09-._~"] {
        validate_relative_webhook_path(path).unwrap();
    }

    assert_eq!(
        resolve_webhook_path("/hooks", "integrations/pretix").unwrap(),
        "/hooks/integrations/pretix"
    );
    assert_eq!(
        resolve_webhook_path("/", "integrations/pretix").unwrap(),
        "/integrations/pretix"
    );
}

#[test]
fn path_invalid_absolute_paths_report_the_rejected_form() {
    for path in [
        "hooks",
        "/hooks/",
        "/hooks//pretix",
        "/hooks/./pretix",
        "/hooks/../pretix",
        "/hooks/{id}",
        "/hooks/:id",
        "/hooks/*rest",
        "/hooks?enabled=true",
        "/hooks#pretix",
        "/hooks%2Fpretix",
        "/hooks pretix",
        "/hooks/é",
    ] {
        let error = validate_absolute_webhook_path(path).unwrap_err();
        assert!(
            error.to_string().contains(path),
            "error did not identify {path:?}: {}",
            error.to_string()
        );
    }
}

#[test]
fn path_invalid_relative_paths_and_prefixes_are_rejected_before_resolution() {
    for path in [
        "",
        "/hooks",
        "hooks/",
        "hooks//pretix",
        "hooks/./pretix",
        "hooks/../pretix",
        "hooks/{organizer}",
        "hooks?enabled=true",
        "hooks%2Fpretix",
        "hooks pretix",
    ] {
        let error = validate_relative_webhook_path(path).unwrap_err();
        assert!(
            error.to_string().contains(path),
            "error did not identify {path:?}: {}",
            error.to_string()
        );
    }

    let prefix_error = resolve_webhook_path("/hooks/", "pretix").unwrap_err();
    assert!(prefix_error.to_string().contains("webhook prefix"));

    let relative_error = resolve_webhook_path("/hooks", "/pretix").unwrap_err();
    assert!(relative_error.to_string().contains("relative webhook path"));
}

#[test]
fn path_errors_quote_the_path_and_explain_the_rule() {
    let error = validate_absolute_webhook_path("hooks").unwrap_err();
    assert_eq!(
        error.to_string(),
        "invalid absolute webhook path \"hooks\": it must start with '/'"
    );
    let error = validate_absolute_webhook_path("/hooks//pretix").unwrap_err();
    assert_eq!(
        error.to_string(),
        "invalid absolute webhook path \"/hooks//pretix\": empty path segments are not allowed"
    );
    let error = validate_absolute_webhook_path("/a/../b").unwrap_err();
    assert_eq!(
        error.to_string(),
        "invalid absolute webhook path \"/a/../b\": '.' and '..' segments are not allowed"
    );
    let error = validate_webhook_prefix("/hooks/{id}").unwrap_err();
    assert_eq!(
        error.to_string(),
        "invalid webhook prefix \"/hooks/{id}\": character '{' is not allowed; segments may contain only ASCII letters, digits, '-', '.', '_', and '~'"
    );
    let error = validate_relative_webhook_path("").unwrap_err();
    assert_eq!(
        error.to_string(),
        "invalid relative webhook path \"\": it must contain at least one segment"
    );
    let error = validate_relative_webhook_path("/a").unwrap_err();
    assert_eq!(
        error.to_string(),
        "invalid relative webhook path \"/a\": leading slashes are not allowed"
    );
    let error = validate_relative_webhook_path("a/").unwrap_err();
    assert_eq!(
        error.to_string(),
        "invalid relative webhook path \"a/\": trailing slashes are not allowed"
    );
}

#[test]
fn resolved_paths_are_valid_absolute_paths() {
    for (prefix, relative) in [("/", "a"), ("/hooks", "x/y"), ("/a.b/c~d", "e_f-g")] {
        let joined = resolve_webhook_path(prefix, relative).unwrap();
        validate_absolute_webhook_path(&joined).unwrap();
    }
}
