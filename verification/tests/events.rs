use pretix_webhook::events::classify_action;
use pretix_webhook::{JsonValue, PayloadError, ResourceId, WebhookEvent, WebhookEventKind};

fn parse(json: &str) -> Result<WebhookEvent, PayloadError> {
    WebhookEvent::from_json(json.as_bytes())
}

fn to_value(value: &JsonValue) -> serde_json::Value {
    match value {
        JsonValue::Null => serde_json::Value::Null,
        JsonValue::Bool(b) => serde_json::Value::Bool(*b),
        JsonValue::Unsigned(u) => serde_json::Value::from(*u),
        JsonValue::OtherNumber(text) | JsonValue::Composite(text) => {
            serde_json::from_str(text).unwrap()
        }
        JsonValue::String(s) => serde_json::Value::String(s.clone()),
    }
}

fn serialized(event: &WebhookEvent) -> serde_json::Value {
    let mut object = serde_json::Map::new();
    for (key, value) in event.to_json_fields() {
        object.insert(key, to_value(&value));
    }
    serde_json::Value::Object(object)
}

#[test]
fn deserializes_an_order_event() {
    let event = parse(
        r#"{
            "notification_id": 123455,
            "organizer": "acmecorp",
            "event": "democon",
            "code": "ABC23",
            "action": "pretix.event.order.placed"
        }"#,
    )
    .expect("documented Pretix payload should deserialize");

    assert_eq!(event.notification_id(), 123_455);
    assert_eq!(event.action(), "pretix.event.order.placed");
    assert_eq!(event.organizer_slug(), Some("acmecorp"));
    assert_eq!(event.event_slug(), Some("democon"));

    let order = event
        .as_order()
        .expect("an order action should produce an order event");
    assert_eq!(order.code, "ABC23");
}

#[test]
fn deserializes_a_checkin_event_with_its_extra_fields() {
    let event = parse(
        r#"{
            "notification_id": 42,
            "organizer": "acmecorp",
            "event": "democon",
            "code": "ABC23",
            "action": "pretix.event.checkin",
            "orderposition_id": 91,
            "orderposition_positionid": 2,
            "checkin_list": 3,
            "type": "entry",
            "first_checkin": true
        }"#,
    )
    .expect("Pretix check-in payload should deserialize");

    let checkin = event
        .as_checkin()
        .expect("a check-in action should produce a check-in event");
    assert_eq!(checkin.orderposition_id, Some(91));
    assert_eq!(checkin.orderposition_positionid, Some(2));
    assert_eq!(checkin.checkin_list, Some(3));
    assert_eq!(checkin.kind.as_deref(), Some("entry"));
    assert_eq!(checkin.first_checkin, Some(true));
}

#[test]
fn dispatches_every_core_payload_shape() {
    let cases = [
        (
            r#"{"notification_id":1,"organizer":"acme","event":"demo","action":"pretix.event.changed"}"#,
            WebhookEventKind::Event,
        ),
        (
            r#"{"notification_id":2,"organizer":"acme","event":"demo","voucher":17,"action":"pretix.voucher.changed"}"#,
            WebhookEventKind::Voucher,
        ),
        (
            r#"{"notification_id":3,"organizer":"acme","event":"demo","subevent":"18","action":"pretix.subevent.added"}"#,
            WebhookEventKind::Subevent,
        ),
        (
            r#"{"notification_id":4,"organizer":"acme","event":"demo","item":19,"action":"pretix.event.item.changed"}"#,
            WebhookEventKind::Item,
        ),
        (
            r#"{"notification_id":5,"organizer":"acme","event":"demo","waitinglistentry":20,"action":"pretix.event.orders.waitinglist.added"}"#,
            WebhookEventKind::WaitingList,
        ),
        (
            r#"{"notification_id":6,"organizer":"acme","customer":"cust-1","action":"pretix.customer.created"}"#,
            WebhookEventKind::Customer,
        ),
        (
            r#"{"notification_id":7,"issuer_id":4,"issuer_slug":"acme","giftcard":21,"action":"pretix.giftcards.created"}"#,
            WebhookEventKind::GiftCard,
        ),
        (
            r#"{"notification_id":8,"issuer_id":4,"issuer_slug":"acme","acceptor_id":5,"acceptor_slug":"other","giftcard":21,"action":"pretix.giftcards.transaction.redeemed"}"#,
            WebhookEventKind::GiftCardTransaction,
        ),
    ];

    for (json, expected_kind) in cases {
        let event = parse(json).expect("core payload should parse");
        assert_eq!(event.kind(), expected_kind);
    }
}

#[test]
fn preserves_unknown_plugin_events_for_forwarding() {
    let input = r#"{
        "notification_id": 99,
        "organizer": "acme",
        "event": "demo",
        "action": "pretix.plugin.badge.printed",
        "badge_id": 123,
        "nested": { "value": true }
    }"#;

    let event = parse(input).expect("plugin payload should parse");

    assert_eq!(event.kind(), WebhookEventKind::Unknown);
    assert_eq!(event.organizer_slug(), Some("acme"));
    assert_eq!(event.event_slug(), Some("demo"));
    let expected: serde_json::Value = serde_json::from_str(input).unwrap();
    assert_eq!(serialized(&event), expected);
}

#[test]
fn typed_payloads_serialize_back_to_their_wire_members() {
    for input in [
        r#"{"notification_id":123455,"organizer":"acmecorp","event":"democon","code":"ABC23","action":"pretix.event.order.placed"}"#,
        r#"{"notification_id":42,"organizer":"acmecorp","event":"democon","code":"ABC23","action":"pretix.event.checkin","orderposition_id":91,"orderposition_positionid":null,"checkin_list":null,"type":"entry","first_checkin":null}"#,
        r#"{"notification_id":2,"organizer":"acme","event":"demo","voucher":17,"action":"pretix.voucher.changed"}"#,
        r#"{"notification_id":3,"organizer":"acme","event":"demo","subevent":"18","action":"pretix.subevent.added"}"#,
        r#"{"notification_id":6,"organizer":"acme","customer":"cust-1","action":"pretix.customer.created"}"#,
        r#"{"notification_id":8,"issuer_id":4,"issuer_slug":"acme","acceptor_id":5,"acceptor_slug":"other","giftcard":21,"action":"pretix.giftcards.transaction.redeemed"}"#,
    ] {
        let event = parse(input).unwrap();
        let expected: serde_json::Value = serde_json::from_str(input).unwrap();
        assert_eq!(serialized(&event), expected, "{input}");
        let again = WebhookEvent::from_fields(&event.to_json_fields()).unwrap();
        assert_eq!(again, event);
    }

    let sparse = parse(
        r#"{"notification_id":42,"organizer":"acmecorp","event":"democon","code":"ABC23","action":"pretix.event.checkin"}"#,
    )
    .unwrap();
    let expected: serde_json::Value = serde_json::from_str(
        r#"{"notification_id":42,"organizer":"acmecorp","event":"democon","code":"ABC23","action":"pretix.event.checkin","orderposition_id":null,"orderposition_positionid":null,"checkin_list":null,"type":null,"first_checkin":null}"#,
    )
    .unwrap();
    assert_eq!(serialized(&sparse), expected);
}

#[test]
fn identity_accessors_follow_the_payload_family() {
    let voucher = parse(
        r#"{"notification_id":2,"organizer":"acme","event":"demo","voucher":"v-17","action":"pretix.voucher.changed"}"#,
    )
    .unwrap();
    match &voucher {
        WebhookEvent::Voucher(v) => assert_eq!(v.voucher, ResourceId::String("v-17".to_owned())),
        other => panic!("unexpected {other:?}"),
    }
    assert!(voucher.is_event_level());

    let customer = parse(
        r#"{"notification_id":6,"organizer":"acme","customer":"cust-1","action":"pretix.customer.created"}"#,
    )
    .unwrap();
    assert!(!customer.is_event_level());
    assert_eq!(customer.organizer_slug(), Some("acme"));
    assert_eq!(customer.event_slug(), None);

    let gift_card = parse(
        r#"{"notification_id":7,"issuer_id":4,"issuer_slug":"acme","giftcard":21,"action":"pretix.giftcards.created"}"#,
    )
    .unwrap();
    assert_eq!(gift_card.organizer_slug(), Some("acme"));
    assert!(!gift_card.is_event_level());
    assert!(gift_card.as_order().is_none());
    assert!(gift_card.as_checkin().is_none());
    assert_eq!(gift_card.notification().notification_id, 7);
}

#[test]
fn unknown_payload_identity_comes_only_from_string_members() {
    let event = parse(
        r#"{"notification_id":1,"organizer":"acmecorp","event":12345,"action":"pretix.plugin.unknown"}"#,
    )
    .unwrap();
    assert_eq!(event.organizer_slug(), Some("acmecorp"));
    assert_eq!(event.event_slug(), None);
    assert!(event.is_event_level());

    let organizer_level = parse(
        r#"{"notification_id":1,"organizer":"acmecorp","action":"pretix.plugin.organizer-level"}"#,
    )
    .unwrap();
    assert!(!organizer_level.is_event_level());
}

#[test]
fn invalid_bodies_are_classified() {
    assert_eq!(parse("not json"), Err(PayloadError::Syntax));
    assert_eq!(parse("[1, 2]"), Err(PayloadError::Syntax));
    assert_eq!(
        parse(r#"{"notification_id":1,"organizer":"acme"}"#),
        Err(PayloadError::MissingAction)
    );
    assert_eq!(
        parse(r#"{"notification_id":1,"organizer":"acme","event":"demo","action":"pretix.event.order.placed"}"#),
        Err(PayloadError::InvalidPayload(WebhookEventKind::Order))
    );
    assert_eq!(
        parse(r#"{"notification_id":-1,"action":"pretix.plugin.unknown"}"#),
        Err(PayloadError::InvalidPayload(WebhookEventKind::Unknown))
    );
}

#[test]
fn actions_select_their_payload_family() {
    assert_eq!(classify_action("pretix.event.checkin.reverted"), WebhookEventKind::Checkin);
    assert_eq!(classify_action("pretix.event.order.paid"), WebhookEventKind::Order);
    assert_eq!(classify_action("pretix.event.quota.changed"), WebhookEventKind::Item);
    assert_eq!(classify_action("pretix.event.live.activated"), WebhookEventKind::Event);
    assert_eq!(classify_action("pretix.event.reordered"), WebhookEventKind::Unknown);
    assert_eq!(classify_action("pretix.giftcards.transaction.x"), WebhookEventKind::GiftCardTransaction);
}
