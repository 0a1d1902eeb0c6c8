use pretix_webhook::{
    multi_endpoints, simple_endpoint, startup_notices, CredentialReference, SimpleModeInputs,
    StartupNotice, WebhookEntry,
};

fn texts(notices: &[StartupNotice]) -> Vec<String> {
    notices.iter().map(StartupNotice::text).collect()
}

#[test]
fn simple_startup_reports_the_route_and_its_security_warnings() {
    let endpoint =
        simple_endpoint(false, None, &Vec::new(), &Vec::new(), Vec::new(), &Vec::new()).unwrap();
    let notices = startup_notices(&vec![endpoint]);
    assert_eq!(
        texts(&notices),
        [
            "pretix webhook route configured at /webhook",
            "warning: no filters configured for /webhook; accepting all events from all organizers",
            "warning: no HTTP Basic credentials configured for /webhook; accepting unauthenticated requests",
        ]
    );
    assert!(!notices[0].is_warning());
    assert!(notices[1].is_warning() && notices[2].is_warning());
    assert!(notices.iter().all(|notice| notice.route() == "/webhook"));
}

#[test]
fn multi_startup_reports_each_route_and_only_its_applicable_warnings() {
    let entries = vec![
        WebhookEntry {
            path: "unrestricted-authenticated".to_owned(),
            allow_organizers: Vec::new(),
            allow_events: Vec::new(),
            credential_env: vec![CredentialReference {
                variable: "PRIVATE_CREDENTIAL_REFERENCE".to_owned(),
                value: Some("private-user:private-password".to_owned()),
            }],
        },
        WebhookEntry {
            path: "restricted-public".to_owned(),
            allow_organizers: vec!["private-organizer".to_owned()],
            allow_events: vec!["private-event".to_owned()],
            credential_env: Vec::new(),
        },
    ];
    let given = SimpleModeInputs { path: false, organizers: false, events: false, credentials: false };
    let endpoints = multi_endpoints(&given, None, Some("/incoming"), &entries).unwrap();
    let report = texts(&startup_notices(&endpoints));
    assert_eq!(
        report,
        [
            "pretix webhook route configured at /incoming/unrestricted-authenticated",
            "pretix webhook route configured at /incoming/restricted-public",
            "warning: no filters configured for /incoming/unrestricted-authenticated; accepting all events from all organizers",
            "warning: no HTTP Basic credentials configured for /incoming/restricted-public; accepting unauthenticated requests",
        ]
    );
    for value in ["private-organizer", "private-event", "private-user", "private-password"] {
        assert!(report.iter().all(|line| !line.contains(value)), "{report:?}");
    }
}
