//! Typed pretix webhook payloads, the dispatch of an action to its payload
//! family, and the accessors used for filtering and routing.
use vstd::prelude::*;
use vstd::string::*;

use crate::json::{
    deref_value, field, field_view, fields_view, find_field, json_optional_bool,
    json_optional_string, json_optional_u64, json_str_view, json_string, json_u64,
    lemma_field_view, read_json_object, read_optional_bool, read_optional_string,
    read_optional_u64, read_string, read_u64, spec_json_object, value_as_str, JsonValue, JsonView,
};
use crate::text::{has_prefix, starts_with, str_eq};

verus! {

/// The payload family selected from a webhook action.
#[derive(Clone, Copy, Debug, PartialEq, Eq, Structural)]
pub enum WebhookEventKind {
    /// An order lifecycle event.
    Order,
    /// A ticket check-in or reverted check-in event.
    Checkin,
    /// An event configuration or lifecycle event.
    Event,
    /// A voucher event.
    Voucher,
    /// An event-series date event.
    Subevent,
    /// An item or quota event.
    Item,
    /// A waiting-list event.
    WaitingList,
    /// An organizer customer event.
    Customer,
    /// A gift-card event other than a transaction.
    GiftCard,
    /// A gift-card transaction event.
    GiftCardTransaction,
    /// A plugin-defined or otherwise unrecognized action.
    Unknown,
}

/// Fields shared by every webhook payload emitted by pretix core.
#[derive(Clone, Debug, PartialEq, Eq)]
pub struct Notification {
    /// Pretix's identifier for this webhook delivery.
    pub notification_id: u64,
    /// The exact action string that selects the payload family.
    pub action: String,
}

/// An identifier from a generic Django object relation.
#[derive(Clone, Debug, PartialEq, Eq)]
pub enum ResourceId {
    /// A numeric object identifier.
    Integer(u64),
    /// A string object identifier used by integrations with non-numeric keys.
    String(String),
}

/// A webhook concerning an order.
#[derive(Clone, Debug, PartialEq, Eq)]
pub struct OrderEvent {
    /// Fields shared by every webhook payload.
    pub notification: Notification,
    /// The organizer that owns the order.
    pub organizer: String,
    /// The event that owns the order.
    pub event: String,
    /// The human-facing order code.
    pub code: String,
}

/// A ticket check-in or reverted check-in.
#[derive(Clone, Debug, PartialEq, Eq)]
pub struct CheckinEvent {
    /// The order and common notification fields for this check-in.
    pub order: OrderEvent,
    /// The database identifier of the checked-in order position, when supplied.
    pub orderposition_id: Option<u64>,
    /// The position number within the order, when supplied.
    pub orderposition_positionid: Option<u64>,
    /// The check-in list identifier, when supplied.
    pub checkin_list: Option<u64>,
    /// The check-in type from the wire `type` field, when supplied.
    pub kind: Option<String>,
    /// Whether this was the position's first check-in, when supplied.
    pub first_checkin: Option<bool>,
}

/// A webhook concerning the event itself.
#[derive(Clone, Debug, PartialEq, Eq)]
pub struct EventEvent {
    /// Fields shared by every webhook payload.
    pub notification: Notification,
    /// The organizer that owns the event.
    pub organizer: String,
    /// The affected event slug.
    pub event: String,
}

/// A webhook concerning a voucher.
#[derive(Clone, Debug, PartialEq, Eq)]
pub struct VoucherEvent {
    /// The affected event and common notification fields.
    pub event: EventEvent,
    /// The affected voucher's object identifier.
    pub voucher: ResourceId,
}

/// A webhook concerning a date in an event series.
#[derive(Clone, Debug, PartialEq, Eq)]
pub struct SubeventEvent {
    /// The affected event and common notification fields.
    pub event: EventEvent,
    /// The affected event-series date's object identifier.
    pub subevent: ResourceId,
}

/// A webhook concerning an item or quota.
#[derive(Clone, Debug, PartialEq, Eq)]
pub struct ItemEvent {
    /// The affected event and common notification fields.
    pub event: EventEvent,
    /// The affected item or quota object identifier.
    pub item: ResourceId,
}

/// A webhook concerning a waiting-list entry.
#[derive(Clone, Debug, PartialEq, Eq)]
pub struct WaitingListEvent {
    /// The affected event and common notification fields.
    pub event: EventEvent,
    /// The affected waiting-list entry's object identifier.
    pub waitinglistentry: ResourceId,
}

/// A webhook concerning an organizer customer.
#[derive(Clone, Debug, PartialEq, Eq)]
pub struct CustomerEvent {
    /// Fields shared by every webhook payload.
    pub notification: Notification,
    /// The organizer that owns the customer.
    pub organizer: String,
    /// The affected customer identifier.
    pub customer: String,
}

/// A webhook concerning a gift card.
#[derive(Clone, Debug, PartialEq, Eq)]
pub struct GiftCardEvent {
    /// Fields shared by every webhook payload.
    pub notification: Notification,
    /// The numeric identifier of the issuing organizer.
    pub issuer_id: u64,
    /// The slug of the issuing organizer.
    pub issuer_slug: String,
    /// The affected gift-card identifier.
    pub giftcard: u64,
}

/// A webhook concerning a gift-card transaction.
#[derive(Clone, Debug, PartialEq, Eq)]
pub struct GiftCardTransactionEvent {
    /// The affected gift card and common notification fields.
    pub gift_card: GiftCardEvent,
    /// The accepting organizer's numeric identifier, when applicable.
    pub acceptor_id: Option<u64>,
    /// The accepting organizer's slug, when applicable.
    pub acceptor_slug: Option<String>,
}

/// A plugin-defined or future pretix payload.
#[derive(Clone, Debug, PartialEq, Eq)]
pub struct UnknownEvent {
    /// The required common notification envelope.
    pub notification: Notification,
    /// Every payload member outside the common notification envelope.
    ///
    /// Keys named `notification_id` or `action` are reserved by
    /// [`notification`](Self::notification).
    pub fields: Vec<(String, JsonValue)>,
}

/// A typed pretix webhook payload.
#[derive(Clone, Debug, PartialEq, Eq)]
pub enum WebhookEvent {
    /// An order lifecycle payload.
    Order(OrderEvent),
    /// A ticket check-in or reverted check-in payload.
    Checkin(CheckinEvent),
    /// An event configuration or lifecycle payload.
    Event(EventEvent),
    /// A voucher payload.
    Voucher(VoucherEvent),
    /// An event-series date payload.
    Subevent(SubeventEvent),
    /// An item or quota payload.
    Item(ItemEvent),
    /// A waiting-list payload.
    WaitingList(WaitingListEvent),
    /// An organizer customer payload.
    Customer(CustomerEvent),
    /// A gift-card payload other than a transaction.
    GiftCard(GiftCardEvent),
    /// A gift-card transaction payload.
    GiftCardTransaction(GiftCardTransactionEvent),
    /// A valid payload whose action is not recognized by this crate.
    Unknown(UnknownEvent),
}

/// Why a webhook body is not a valid payload.
#[derive(Clone, Copy, Debug, PartialEq, Eq)]
pub enum PayloadError {
    /// The body is not a JSON object.
    Syntax,
    /// The object has no string `action` member.
    MissingAction,
    /// The members do not fit the payload type that the action selects.
    InvalidPayload(WebhookEventKind),
}

/// The payload family that an action selects.
pub open spec fn action_kind(a: Seq<char>) -> WebhookEventKind {
    if a == "pretix.event.checkin"@ || a == "pretix.event.checkin.reverted"@ {
        WebhookEventKind::Checkin
    } else if has_prefix(a, "pretix.event.order."@) {
        WebhookEventKind::Order
    } else if a == "pretix.event.added"@ || a == "pretix.event.changed"@ || a
        == "pretix.event.deleted"@ || a == "pretix.event.live.activated"@ || a
        == "pretix.event.live.deactivated"@ || a == "pretix.event.testmode.activated"@ || a
        == "pretix.event.testmode.deactivated"@ {
        WebhookEventKind::Event
    } else if has_prefix(a, "pretix.voucher."@) {
        WebhookEventKind::Voucher
    } else if has_prefix(a, "pretix.subevent."@) {
        WebhookEventKind::Subevent
    } else if has_prefix(a, "pretix.event.item."@) || has_prefix(a, "pretix.event.quota."@) {
        WebhookEventKind::Item
    } else if has_prefix(a, "pretix.event.orders.waitinglist."@) {
        WebhookEventKind::WaitingList
    } else if has_prefix(a, "pretix.customer."@) {
        WebhookEventKind::Customer
    } else if has_prefix(a, "pretix.giftcards.transaction."@) {
        WebhookEventKind::GiftCardTransaction
    } else if has_prefix(a, "pretix.giftcards."@) {
        WebhookEventKind::GiftCard
    } else {
        WebhookEventKind::Unknown
    }
}

/// Selects the payload family of an action.
pub fn classify_action(action: &str) -> (res: WebhookEventKind)
    ensures
        res == action_kind(action@),
{
    if str_eq(action, "pretix.event.checkin") || str_eq(action, "pretix.event.checkin.reverted") {
        WebhookEventKind::Checkin
    } else if starts_with(action, "pretix.event.order.") {
        WebhookEventKind::Order
    } else if str_eq(action, "pretix.event.added") || str_eq(action, "pretix.event.changed")
        || str_eq(action, "pretix.event.deleted") || str_eq(action, "pretix.event.live.activated")
        || str_eq(action, "pretix.event.live.deactivated") || str_eq(
        action,
        "pretix.event.testmode.activated",
    ) || str_eq(action, "pretix.event.testmode.deactivated") {
        WebhookEventKind::Event
    } else if starts_with(action, "pretix.voucher.") {
        WebhookEventKind::Voucher
    } else if starts_with(action, "pretix.subevent.") {
        WebhookEventKind::Subevent
    } else if starts_with(action, "pretix.event.item.") || starts_with(
        action,
        "pretix.event.quota.",
    ) {
        WebhookEventKind::Item
    } else if starts_with(action, "pretix.event.orders.waitinglist.") {
        WebhookEventKind::WaitingList
    } else if starts_with(action, "pretix.customer.") {
        WebhookEventKind::Customer
    } else if starts_with(action, "pretix.giftcards.transaction.") {
        WebhookEventKind::GiftCardTransaction
    } else if starts_with(action, "pretix.giftcards.") {
        WebhookEventKind::GiftCard
    } else {
        WebhookEventKind::Unknown
    }
}

/// A required or optional resource identifier: an integer, else a string.
pub open spec fn json_resource_id(v: Option<JsonValue>) -> Option<ResourceId> {
    match v {
        Some(JsonValue::Unsigned(u)) => Some(ResourceId::Integer(u)),
        Some(JsonValue::String(s)) => Some(ResourceId::String(s)),
        _ => None,
    }
}

/// The common envelope read from the members.
pub open spec fn notification_from(f: Seq<(String, JsonValue)>) -> Option<Notification> {
    match (json_u64(field(f, "notification_id"@)), json_string(field(f, "action"@))) {
        (Some(id), Some(action)) => Some(Notification { notification_id: id, action }),
        _ => None,
    }
}

/// An order payload read from the members.
pub open spec fn order_from(f: Seq<(String, JsonValue)>) -> Option<OrderEvent> {
    match (
        notification_from(f),
        json_string(field(f, "organizer"@)),
        json_string(field(f, "event"@)),
        json_string(field(f, "code"@)),
    ) {
        (Some(n), Some(organizer), Some(event), Some(code)) => Some(
            OrderEvent { notification: n, organizer, event, code },
        ),
        _ => None,
    }
}

/// A check-in payload read from the members.
pub open spec fn checkin_from(f: Seq<(String, JsonValue)>) -> Option<CheckinEvent> {
    match (
        order_from(f),
        json_optional_u64(field(f, "orderposition_id"@)),
        json_optional_u64(field(f, "orderposition_positionid"@)),
        json_optional_u64(field(f, "checkin_list"@)),
        json_optional_string(field(f, "type"@)),
        json_optional_bool(field(f, "first_checkin"@)),
    ) {
        (Some(order), Some(a), Some(b), Some(c), Some(d), Some(e)) => Some(
            CheckinEvent {
                order,
                orderposition_id: a,
                orderposition_positionid: b,
                checkin_list: c,
                kind: d,
                first_checkin: e,
            },
        ),
        _ => None,
    }
}

/// An event payload read from the members.
pub open spec fn event_event_from(f: Seq<(String, JsonValue)>) -> Option<EventEvent> {
    match (
        notification_from(f),
        json_string(field(f, "organizer"@)),
        json_string(field(f, "event"@)),
    ) {
        (Some(n), Some(organizer), Some(event)) => Some(
            EventEvent { notification: n, organizer, event },
        ),
        _ => None,
    }
}

/// The event payload and the resource identifier under `key`.
pub open spec fn event_resource_from(f: Seq<(String, JsonValue)>, key: Seq<char>) -> Option<
    (EventEvent, ResourceId),
> {
    match (event_event_from(f), json_resource_id(field(f, key))) {
        (Some(e), Some(r)) => Some((e, r)),
        _ => None,
    }
}

/// A customer payload read from the members.
pub open spec fn customer_from(f: Seq<(String, JsonValue)>) -> Option<CustomerEvent> {
    match (
        notification_from(f),
        json_string(field(f, "organizer"@)),
        json_string(field(f, "customer"@)),
    ) {
        (Some(n), Some(organizer), Some(customer)) => Some(
            CustomerEvent { notification: n, organizer, customer },
        ),
        _ => None,
    }
}

/// A gift-card payload read from the members.
pub open spec fn gift_card_from(f: Seq<(String, JsonValue)>) -> Option<GiftCardEvent> {
    match (
        notification_from(f),
        json_u64(field(f, "issuer_id"@)),
        json_string(field(f, "issuer_slug"@)),
        json_u64(field(f, "giftcard"@)),
    ) {
        (Some(n), Some(issuer_id), Some(issuer_slug), Some(giftcard)) => Some(
            GiftCardEvent { notification: n, issuer_id, issuer_slug, giftcard },
        ),
        _ => None,
    }
}

/// A gift-card transaction payload read from the members.
pub open spec fn gift_card_transaction_from(f: Seq<(String, JsonValue)>) -> Option<
    GiftCardTransactionEvent,
> {
    match (
        gift_card_from(f),
        json_optional_u64(field(f, "acceptor_id"@)),
        json_optional_string(field(f, "acceptor_slug"@)),
    ) {
        (Some(g), Some(acceptor_id), Some(acceptor_slug)) => Some(
            GiftCardTransactionEvent { gift_card: g, acceptor_id, acceptor_slug },
        ),
        _ => None,
    }
}

/// A key held by the common envelope.
pub open spec fn is_reserved_key(k: Seq<char>) -> bool {
    k == "notification_id"@ || k == "action"@
}

/// The members outside the common envelope, in order.
pub open spec fn unreserved_fields(f: Seq<(String, JsonValue)>) -> Seq<(String, JsonValue)> {
    f.filter(|e: (String, JsonValue)| !is_reserved_key(e.0@))
}


/// `Some(x)` wrapped as `Ok(wrap(x))`, `None` as the invalid-payload error.
pub open spec fn payload_result(v: Option<WebhookEvent>, kind: WebhookEventKind) -> Result<
    WebhookEvent,
    PayloadError,
> {
    match v {
        Some(e) => Ok(e),
        None => Err(PayloadError::InvalidPayload(kind)),
    }
}

/// The payload of a typed (known) family `kind` read from the members.
pub open spec fn typed_event_from_fields(f: Seq<(String, JsonValue)>, kind: WebhookEventKind) -> Result<
    WebhookEvent,
    PayloadError,
> {
    match kind {
                WebhookEventKind::Order => payload_result(
                    match order_from(f) {
                        Some(e) => Some(WebhookEvent::Order(e)),
                        None => None,
                    },
                    kind,
                ),
                WebhookEventKind::Checkin => payload_result(
                    match checkin_from(f) {
                        Some(e) => Some(WebhookEvent::Checkin(e)),
                        None => None,
                    },
                    kind,
                ),
                WebhookEventKind::Event => payload_result(
                    match event_event_from(f) {
                        Some(e) => Some(WebhookEvent::Event(e)),
                        None => None,
                    },
                    kind,
                ),
                WebhookEventKind::Voucher => payload_result(
                    match event_resource_from(f, "voucher"@) {
                        Some((e, r)) => Some(
                            WebhookEvent::Voucher(VoucherEvent { event: e, voucher: r }),
                        ),
                        None => None,
                    },
                    kind,
                ),
                WebhookEventKind::Subevent => payload_result(
                    match event_resource_from(f, "subevent"@) {
                        Some((e, r)) => Some(
                            WebhookEvent::Subevent(SubeventEvent { event: e, subevent: r }),
                        ),
                        None => None,
                    },
                    kind,
                ),
                WebhookEventKind::Item => payload_result(
                    match event_resource_from(f, "item"@) {
                        Some((e, r)) => Some(WebhookEvent::Item(ItemEvent { event: e, item: r })),
                        None => None,
                    },
                    kind,
                ),
                WebhookEventKind::WaitingList => payload_result(
                    match event_resource_from(f, "waitinglistentry"@) {
                        Some((e, r)) => Some(
                            WebhookEvent::WaitingList(
                                WaitingListEvent { event: e, waitinglistentry: r },
                            ),
                        ),
                        None => None,
                    },
                    kind,
                ),
                WebhookEventKind::Customer => payload_result(
                    match customer_from(f) {
                        Some(e) => Some(WebhookEvent::Customer(e)),
                        None => None,
                    },
                    kind,
                ),
                WebhookEventKind::GiftCard => payload_result(
                    match gift_card_from(f) {
                        Some(e) => Some(WebhookEvent::GiftCard(e)),
                        None => None,
                    },
                    kind,
                ),
                WebhookEventKind::GiftCardTransaction => payload_result(
                    match gift_card_transaction_from(f) {
                        Some(e) => Some(WebhookEvent::GiftCardTransaction(e)),
                        None => None,
                    },
                    kind,
                ),
                WebhookEventKind::Unknown => Err(PayloadError::InvalidPayload(kind)),
    }
}

/// `res` is what reading the members `f` gives: the `action` member selects
/// the family, whose required members must be present with the right types;
/// an unknown action keeps the envelope and every other member, in order.
pub open spec fn reads_payload(f: Seq<(String, JsonValue)>, res: Result<WebhookEvent, PayloadError>) -> bool {
    match json_string(field(f, "action"@)) {
        None => res == Err::<WebhookEvent, PayloadError>(PayloadError::MissingAction),
        Some(action) => {
            let kind = action_kind(action@);
            if kind == WebhookEventKind::Unknown {
                match notification_from(f) {
                    Some(n) => res matches Ok(WebhookEvent::Unknown(u)) && u.notification == n
                        && u.fields@ == unreserved_fields(f),
                    None => res == Err::<WebhookEvent, PayloadError>(
                        PayloadError::InvalidPayload(kind),
                    ),
                }
            } else {
                res == typed_event_from_fields(f, kind)
            }
        },
    }
}


/// `res` is what reading the JSON body `bytes` gives: a body that is not a
/// JSON object is a syntax error; otherwise `res` is what reading the
/// object's members gives.
pub open spec fn reads_json_payload(bytes: Seq<u8>, res: Result<WebhookEvent, PayloadError>) -> bool {
    match spec_json_object(bytes) {
        None => res == Err::<WebhookEvent, PayloadError>(PayloadError::Syntax),
        Some(m) => exists|f: Seq<(String, JsonValue)>|
            #![trigger reads_payload(f, res)]
            fields_view(f) == m && reads_payload(f, res),
    }
}

fn read_notification(f: &Vec<(String, JsonValue)>) -> (res: Option<Notification>)
    ensures
        res == notification_from(f@),
{
    let id = read_u64(find_field(f, "notification_id"));
    let action = read_string(find_field(f, "action"));
    match (id, action) {
        (Some(id), Some(action)) => Some(Notification { notification_id: id, action }),
        _ => None,
    }
}

fn read_order(f: &Vec<(String, JsonValue)>) -> (res: Option<OrderEvent>)
    ensures
        res == order_from(f@),
{
    let n = read_notification(f);
    let organizer = read_string(find_field(f, "organizer"));
    let event = read_string(find_field(f, "event"));
    let code = read_string(find_field(f, "code"));
    match (n, organizer, event, code) {
        (Some(n), Some(organizer), Some(event), Some(code)) => Some(
            OrderEvent { notification: n, organizer, event, code },
        ),
        _ => None,
    }
}

fn read_checkin(f: &Vec<(String, JsonValue)>) -> (res: Option<CheckinEvent>)
    ensures
        res == checkin_from(f@),
{
    let order = read_order(f);
    let a = read_optional_u64(find_field(f, "orderposition_id"));
    let b = read_optional_u64(find_field(f, "orderposition_positionid"));
    let c = read_optional_u64(find_field(f, "checkin_list"));
    let d = read_optional_string(find_field(f, "type"));
    let e = read_optional_bool(find_field(f, "first_checkin"));
    match (order, a, b, c, d, e) {
        (Some(order), Some(a), Some(b), Some(c), Some(d), Some(e)) => Some(
            CheckinEvent {
                order,
                orderposition_id: a,
                orderposition_positionid: b,
                checkin_list: c,
                kind: d,
                first_checkin: e,
            },
        ),
        _ => None,
    }
}

fn read_event_event(f: &Vec<(String, JsonValue)>) -> (res: Option<EventEvent>)
    ensures
        res == event_event_from(f@),
{
    let n = read_notification(f);
    let organizer = read_string(find_field(f, "organizer"));
    let event = read_string(find_field(f, "event"));
    match (n, organizer, event) {
        (Some(n), Some(organizer), Some(event)) => Some(
            EventEvent { notification: n, organizer, event },
        ),
        _ => None,
    }
}

fn read_resource_id(v: Option<&JsonValue>) -> (res: Option<ResourceId>)
    ensures
        res == json_resource_id(deref_value(v)),
{
    match v {
        Some(JsonValue::Unsigned(u)) => Some(ResourceId::Integer(*u)),
        Some(JsonValue::String(s)) => Some(ResourceId::String(s.clone())),
        _ => None,
    }
}

fn read_event_resource(f: &Vec<(String, JsonValue)>, key: &str) -> (res: Option<
    (EventEvent, ResourceId),
>)
    ensures
        res == event_resource_from(f@, key@),
{
    let e = read_event_event(f);
    let r = read_resource_id(find_field(f, key));
    match (e, r) {
        (Some(e), Some(r)) => Some((e, r)),
        _ => None,
    }
}

fn read_customer(f: &Vec<(String, JsonValue)>) -> (res: Option<CustomerEvent>)
    ensures
        res == customer_from(f@),
{
    let n = read_notification(f);
    let organizer = read_string(find_field(f, "organizer"));
    let customer = read_string(find_field(f, "customer"));
    match (n, organizer, customer) {
        (Some(n), Some(organizer), Some(customer)) => Some(
            CustomerEvent { notification: n, organizer, customer },
        ),
        _ => None,
    }
}

fn read_gift_card(f: &Vec<(String, JsonValue)>) -> (res: Option<GiftCardEvent>)
    ensures
        res == gift_card_from(f@),
{
    let n = read_notification(f);
    let issuer_id = read_u64(find_field(f, "issuer_id"));
    let issuer_slug = read_string(find_field(f, "issuer_slug"));
    let giftcard = read_u64(find_field(f, "giftcard"));
    match (n, issuer_id, issuer_slug, giftcard) {
        (Some(n), Some(issuer_id), Some(issuer_slug), Some(giftcard)) => Some(
            GiftCardEvent { notification: n, issuer_id, issuer_slug, giftcard },
        ),
        _ => None,
    }
}

fn read_gift_card_transaction(f: &Vec<(String, JsonValue)>) -> (res: Option<
    GiftCardTransactionEvent,
>)
    ensures
        res == gift_card_transaction_from(f@),
{
    let g = read_gift_card(f);
    let acceptor_id = read_optional_u64(find_field(f, "acceptor_id"));
    let acceptor_slug = read_optional_string(find_field(f, "acceptor_slug"));
    match (g, acceptor_id, acceptor_slug) {
        (Some(g), Some(acceptor_id), Some(acceptor_slug)) => Some(
            GiftCardTransactionEvent { gift_card: g, acceptor_id, acceptor_slug },
        ),
        _ => None,
    }
}

/// Reports whether `key` is held by the common envelope.
fn reserved_key(key: &str) -> (res: bool)
    ensures
        res == is_reserved_key(key@),
{
    str_eq(key, "notification_id") || str_eq(key, "action")
}

/// Copies the members outside the common envelope.
fn copy_unreserved(f: &Vec<(String, JsonValue)>) -> (res: Vec<(String, JsonValue)>)
    ensures
        res@ == unreserved_fields(f@),
{
    let ghost pred = |e: (String, JsonValue)| !is_reserved_key(e.0@);
    let n = f.len();
    let mut out: Vec<(String, JsonValue)> = Vec::new();
    let mut i: usize = 0;
    proof {
        reveal_with_fuel(Seq::<_>::filter, 1);
        assert(f@.subrange(0, 0) =~= Seq::<(String, JsonValue)>::empty());
    }
    while i < n
        invariant
            n == f@.len(),
            i <= n,
            pred == (|e: (String, JsonValue)| !is_reserved_key(e.0@)),
            out@ == f@.subrange(0, i as int).filter(pred),
        decreases n - i,
    {
        proof {
            reveal_with_fuel(Seq::<_>::filter, 1);
        }
        let entry = &f[i];
        let ghost prefix = f@.subrange(0, i + 1);
        assert(prefix.drop_last() =~= f@.subrange(0, i as int));
        assert(prefix.last() == f@[i as int]);
        if !reserved_key(entry.0.as_str()) {
            let copy = (entry.0.clone(), entry.1.duplicate());
            assert(copy == f@[i as int]);
            out.push(copy);
        }
        i = i + 1;
    }
    assert(f@.subrange(0, n as int) =~= f@);
    out
}

fn read_unknown(f: &Vec<(String, JsonValue)>) -> (res: Option<UnknownEvent>)
    ensures
        match notification_from(f@) {
            Some(n) => res matches Some(u) && u.notification == n && u.fields@ == unreserved_fields(f@),
            None => res is None,
        },
{
    match read_notification(f) {
        Some(n) => Some(UnknownEvent { notification: n, fields: copy_unreserved(f) }),
        None => None,
    }
}

/// The JSON value of an optional integer (`null` when absent).
pub open spec fn optional_u64_view(o: Option<u64>) -> JsonView {
    match o {
        Some(u) => JsonView::Unsigned(u),
        None => JsonView::Null,
    }
}

/// The JSON value of an optional string (`null` when absent).
pub open spec fn optional_string_view(o: Option<String>) -> JsonView {
    match o {
        Some(s) => JsonView::String(s@),
        None => JsonView::Null,
    }
}

/// The JSON value of an optional boolean (`null` when absent).
pub open spec fn optional_bool_view(o: Option<bool>) -> JsonView {
    match o {
        Some(b) => JsonView::Bool(b),
        None => JsonView::Null,
    }
}

/// The JSON value of a resource identifier.
pub open spec fn resource_view(r: ResourceId) -> JsonView {
    match r {
        ResourceId::Integer(u) => JsonView::Unsigned(u),
        ResourceId::String(s) => JsonView::String(s@),
    }
}

/// The members that carry the common envelope.
pub open spec fn notification_members(n: Notification) -> Seq<(Seq<char>, JsonView)> {
    seq![
        ("notification_id"@, JsonView::Unsigned(n.notification_id)),
        ("action"@, JsonView::String(n.action@)),
    ]
}

/// The members of an order payload.
pub open spec fn order_members(e: OrderEvent) -> Seq<(Seq<char>, JsonView)> {
    notification_members(e.notification) + seq![
        ("organizer"@, JsonView::String(e.organizer@)),
        ("event"@, JsonView::String(e.event@)),
        ("code"@, JsonView::String(e.code@)),
    ]
}

/// The members of a check-in payload; absent optional members are `null`.
pub open spec fn checkin_members(e: CheckinEvent) -> Seq<(Seq<char>, JsonView)> {
    order_members(e.order) + seq![
        ("orderposition_id"@, optional_u64_view(e.orderposition_id)),
        ("orderposition_positionid"@, optional_u64_view(e.orderposition_positionid)),
        ("checkin_list"@, optional_u64_view(e.checkin_list)),
        ("type"@, optional_string_view(e.kind)),
        ("first_checkin"@, optional_bool_view(e.first_checkin)),
    ]
}

/// The members of an event payload.
pub open spec fn event_members(e: EventEvent) -> Seq<(Seq<char>, JsonView)> {
    notification_members(e.notification) + seq![
        ("organizer"@, JsonView::String(e.organizer@)),
        ("event"@, JsonView::String(e.event@)),
    ]
}

/// The members of a customer payload.
pub open spec fn customer_members(e: CustomerEvent) -> Seq<(Seq<char>, JsonView)> {
    notification_members(e.notification) + seq![
        ("organizer"@, JsonView::String(e.organizer@)),
        ("customer"@, JsonView::String(e.customer@)),
    ]
}

/// The members of a gift-card payload.
pub open spec fn gift_card_members(e: GiftCardEvent) -> Seq<(Seq<char>, JsonView)> {
    notification_members(e.notification) + seq![
        ("issuer_id"@, JsonView::Unsigned(e.issuer_id)),
        ("issuer_slug"@, JsonView::String(e.issuer_slug@)),
        ("giftcard"@, JsonView::Unsigned(e.giftcard)),
    ]
}

/// The members of a gift-card transaction payload.
pub open spec fn gift_card_transaction_members(e: GiftCardTransactionEvent) -> Seq<
    (Seq<char>, JsonView),
> {
    gift_card_members(e.gift_card) + seq![
        ("acceptor_id"@, optional_u64_view(e.acceptor_id)),
        ("acceptor_slug"@, optional_string_view(e.acceptor_slug)),
    ]
}

/// The text of an optional string slice.
pub open spec fn str_opt_view(o: Option<&str>) -> Option<Seq<char>> {
    match o {
        Some(s) => Some(s@),
        None => None,
    }
}

fn push_member(out: &mut Vec<(String, JsonValue)>, key: &str, value: JsonValue)
    ensures
        fields_view(final(out)@) == fields_view(old(out)@).push((key@, value@)),
{
    let ghost before = out@;
    let ghost v = value@;
    out.push((String::from_str(key), value));
    assert(fields_view(out@) =~= fields_view(before).push((key@, v)));
}

fn optional_u64_value(o: Option<u64>) -> (res: JsonValue)
    ensures
        res@ == optional_u64_view(o),
{
    match o {
        Some(u) => JsonValue::Unsigned(u),
        None => JsonValue::Null,
    }
}

fn optional_string_value(o: &Option<String>) -> (res: JsonValue)
    ensures
        res@ == optional_string_view(*o),
{
    match o {
        Some(s) => JsonValue::String(s.clone()),
        None => JsonValue::Null,
    }
}

fn optional_bool_value(o: Option<bool>) -> (res: JsonValue)
    ensures
        res@ == optional_bool_view(o),
{
    match o {
        Some(b) => JsonValue::Bool(b),
        None => JsonValue::Null,
    }
}

fn resource_value(r: &ResourceId) -> (res: JsonValue)
    ensures
        res@ == resource_view(*r),
{
    match r {
        ResourceId::Integer(u) => JsonValue::Unsigned(*u),
        ResourceId::String(s) => JsonValue::String(s.clone()),
    }
}

fn push_notification(out: &mut Vec<(String, JsonValue)>, n: &Notification)
    ensures
        fields_view(final(out)@) == fields_view(old(out)@) + notification_members(*n),
{
    let ghost before = fields_view(out@);
    push_member(out, "notification_id", JsonValue::Unsigned(n.notification_id));
    push_member(out, "action", JsonValue::String(n.action.clone()));
    assert(fields_view(out@) =~= before + notification_members(*n));
}

fn push_order(out: &mut Vec<(String, JsonValue)>, e: &OrderEvent)
    ensures
        fields_view(final(out)@) == fields_view(old(out)@) + order_members(*e),
{
    let ghost before = fields_view(out@);
    push_notification(out, &e.notification);
    push_member(out, "organizer", JsonValue::String(e.organizer.clone()));
    push_member(out, "event", JsonValue::String(e.event.clone()));
    push_member(out, "code", JsonValue::String(e.code.clone()));
    assert(fields_view(out@) =~= before + order_members(*e));
}

fn push_checkin(out: &mut Vec<(String, JsonValue)>, e: &CheckinEvent)
    ensures
        fields_view(final(out)@) == fields_view(old(out)@) + checkin_members(*e),
{
    let ghost before = fields_view(out@);
    push_order(out, &e.order);
    push_member(out, "orderposition_id", optional_u64_value(e.orderposition_id));
    push_member(out, "orderposition_positionid", optional_u64_value(e.orderposition_positionid));
    push_member(out, "checkin_list", optional_u64_value(e.checkin_list));
    push_member(out, "type", optional_string_value(&e.kind));
    push_member(out, "first_checkin", optional_bool_value(e.first_checkin));
    assert(fields_view(out@) =~= before + checkin_members(*e));
}

fn push_event(out: &mut Vec<(String, JsonValue)>, e: &EventEvent)
    ensures
        fields_view(final(out)@) == fields_view(old(out)@) + event_members(*e),
{
    let ghost before = fields_view(out@);
    push_notification(out, &e.notification);
    push_member(out, "organizer", JsonValue::String(e.organizer.clone()));
    push_member(out, "event", JsonValue::String(e.event.clone()));
    assert(fields_view(out@) =~= before + event_members(*e));
}

fn push_gift_card(out: &mut Vec<(String, JsonValue)>, e: &GiftCardEvent)
    ensures
        fields_view(final(out)@) == fields_view(old(out)@) + gift_card_members(*e),
{
    let ghost before = fields_view(out@);
    push_notification(out, &e.notification);
    push_member(out, "issuer_id", JsonValue::Unsigned(e.issuer_id));
    push_member(out, "issuer_slug", JsonValue::String(e.issuer_slug.clone()));
    push_member(out, "giftcard", JsonValue::Unsigned(e.giftcard));
    assert(fields_view(out@) =~= before + gift_card_members(*e));
}

fn push_all(out: &mut Vec<(String, JsonValue)>, fields: &Vec<(String, JsonValue)>)
    ensures
        fields_view(final(out)@) == fields_view(old(out)@) + fields_view(fields@),
{
    let ghost before = fields_view(out@);
    let n = fields.len();
    let mut i: usize = 0;
    assert(fields_view(fields@.subrange(0, 0)) =~= Seq::<(Seq<char>, JsonView)>::empty());
    assert(fields_view(out@) =~= before + fields_view(fields@.subrange(0, 0)));
    while i < n
        invariant
            n == fields@.len(),
            i <= n,
            fields_view(out@) == before + fields_view(fields@.subrange(0, i as int)),
        decreases n - i,
    {
        let entry = &fields[i];
        let copy = (entry.0.clone(), entry.1.duplicate());
        let ghost prior = out@;
        out.push(copy);
        assert(fields_view(fields@.subrange(0, i + 1)) =~= fields_view(
            fields@.subrange(0, i as int),
        ).push((fields@[i as int].0@, fields@[i as int].1@)));
        assert(fields_view(out@) =~= fields_view(prior).push((fields@[i as int].0@, fields@[i as int].1@)));
        i = i + 1;
    }
    assert(fields@.subrange(0, n as int) =~= fields@);
}

impl WebhookEvent {
    /// The payload family of this value.
    pub open spec fn spec_kind(&self) -> WebhookEventKind {
        match self {
            WebhookEvent::Order(_) => WebhookEventKind::Order,
            WebhookEvent::Checkin(_) => WebhookEventKind::Checkin,
            WebhookEvent::Event(_) => WebhookEventKind::Event,
            WebhookEvent::Voucher(_) => WebhookEventKind::Voucher,
            WebhookEvent::Subevent(_) => WebhookEventKind::Subevent,
            WebhookEvent::Item(_) => WebhookEventKind::Item,
            WebhookEvent::WaitingList(_) => WebhookEventKind::WaitingList,
            WebhookEvent::Customer(_) => WebhookEventKind::Customer,
            WebhookEvent::GiftCard(_) => WebhookEventKind::GiftCard,
            WebhookEvent::GiftCardTransaction(_) => WebhookEventKind::GiftCardTransaction,
            WebhookEvent::Unknown(_) => WebhookEventKind::Unknown,
        }
    }

    /// The common envelope of this payload.
    pub open spec fn spec_notification(&self) -> Notification {
        match self {
            WebhookEvent::Order(e) => e.notification,
            WebhookEvent::Checkin(e) => e.order.notification,
            WebhookEvent::Event(e) => e.notification,
            WebhookEvent::Voucher(e) => e.event.notification,
            WebhookEvent::Subevent(e) => e.event.notification,
            WebhookEvent::Item(e) => e.event.notification,
            WebhookEvent::WaitingList(e) => e.event.notification,
            WebhookEvent::Customer(e) => e.notification,
            WebhookEvent::GiftCard(e) => e.notification,
            WebhookEvent::GiftCardTransaction(e) => e.gift_card.notification,
            WebhookEvent::Unknown(e) => e.notification,
        }
    }

    /// The organizer slug used for filtering: the `organizer` of ordinary
    /// payloads, the `issuer_slug` of gift-card payloads, and for unknown
    /// payloads the first of `organizer`, `issuer_slug` that is present, when
    /// it holds a string.
    pub open spec fn spec_organizer_slug(&self) -> Option<Seq<char>> {
        match self {
            WebhookEvent::Order(e) => Some(e.organizer@),
            WebhookEvent::Checkin(e) => Some(e.order.organizer@),
            WebhookEvent::Event(e) => Some(e.organizer@),
            WebhookEvent::Voucher(e) => Some(e.event.organizer@),
            WebhookEvent::Subevent(e) => Some(e.event.organizer@),
            WebhookEvent::Item(e) => Some(e.event.organizer@),
            WebhookEvent::WaitingList(e) => Some(e.event.organizer@),
            WebhookEvent::Customer(e) => Some(e.organizer@),
            WebhookEvent::GiftCard(e) => Some(e.issuer_slug@),
            WebhookEvent::GiftCardTransaction(e) => Some(e.gift_card.issuer_slug@),
            WebhookEvent::Unknown(e) => match field(e.fields@, "organizer"@) {
                Some(v) => json_str_view(Some(v)),
                None => json_str_view(field(e.fields@, "issuer_slug"@)),
            },
        }
    }

    /// Whether the payload concerns one specific event: every typed family
    /// except customers and gift cards, and unknown payloads that carry an
    /// `event` member of any type.
    pub open spec fn spec_is_event_level(&self) -> bool {
        match self {
            WebhookEvent::Customer(_) => false,
            WebhookEvent::GiftCard(_) => false,
            WebhookEvent::GiftCardTransaction(_) => false,
            WebhookEvent::Unknown(e) => field(e.fields@, "event"@) is Some,
            _ => true,
        }
    }

    /// The event slug used for filtering, when present and a string.
    pub open spec fn spec_event_slug(&self) -> Option<Seq<char>> {
        match self {
            WebhookEvent::Order(e) => Some(e.event@),
            WebhookEvent::Checkin(e) => Some(e.order.event@),
            WebhookEvent::Event(e) => Some(e.event@),
            WebhookEvent::Voucher(e) => Some(e.event.event@),
            WebhookEvent::Subevent(e) => Some(e.event.event@),
            WebhookEvent::Item(e) => Some(e.event.event@),
            WebhookEvent::WaitingList(e) => Some(e.event.event@),
            WebhookEvent::Customer(_) => None,
            WebhookEvent::GiftCard(_) => None,
            WebhookEvent::GiftCardTransaction(_) => None,
            WebhookEvent::Unknown(e) => json_str_view(field(e.fields@, "event"@)),
        }
    }

    /// The members that this payload serializes to, in order: the envelope,
    /// then the family's own members; an unknown payload adds its kept members.
    pub open spec fn json_members(&self) -> Seq<(Seq<char>, JsonView)> {
        match self {
            WebhookEvent::Order(e) => order_members(*e),
            WebhookEvent::Checkin(e) => checkin_members(*e),
            WebhookEvent::Event(e) => event_members(*e),
            WebhookEvent::Voucher(e) => event_members(e.event).push(
                ("voucher"@, resource_view(e.voucher)),
            ),
            WebhookEvent::Subevent(e) => event_members(e.event).push(
                ("subevent"@, resource_view(e.subevent)),
            ),
            WebhookEvent::Item(e) => event_members(e.event).push(("item"@, resource_view(e.item))),
            WebhookEvent::WaitingList(e) => event_members(e.event).push(
                ("waitinglistentry"@, resource_view(e.waitinglistentry)),
            ),
            WebhookEvent::Customer(e) => customer_members(*e),
            WebhookEvent::GiftCard(e) => gift_card_members(*e),
            WebhookEvent::GiftCardTransaction(e) => gift_card_transaction_members(*e),
            WebhookEvent::Unknown(e) => notification_members(e.notification) + fields_view(
                e.fields@,
            ),
        }
    }

    /// The action selects this payload's own family, and an unknown payload
    /// keeps no member under a reserved key.
    pub open spec fn is_consistent(&self) -> bool {
        &&& action_kind(self.spec_notification().action@) == self.spec_kind()
        &&& self matches WebhookEvent::Unknown(u) ==> forall|i: int|
            0 <= i < u.fields@.len() ==> !is_reserved_key(#[trigger] u.fields@[i].0@)
    }

    /// The JSON members that this payload serializes to.
    pub fn to_json_fields(&self) -> (res: Vec<(String, JsonValue)>)
        ensures
            fields_view(res@) == self.json_members(),
    {
        let mut out: Vec<(String, JsonValue)> = Vec::new();
        assert(fields_view(out@) =~= Seq::<(Seq<char>, JsonView)>::empty());
        match self {
            WebhookEvent::Order(e) => push_order(&mut out, e),
            WebhookEvent::Checkin(e) => push_checkin(&mut out, e),
            WebhookEvent::Event(e) => push_event(&mut out, e),
            WebhookEvent::Voucher(e) => {
                push_event(&mut out, &e.event);
                push_member(&mut out, "voucher", resource_value(&e.voucher));
            },
            WebhookEvent::Subevent(e) => {
                push_event(&mut out, &e.event);
                push_member(&mut out, "subevent", resource_value(&e.subevent));
            },
            WebhookEvent::Item(e) => {
                push_event(&mut out, &e.event);
                push_member(&mut out, "item", resource_value(&e.item));
            },
            WebhookEvent::WaitingList(e) => {
                push_event(&mut out, &e.event);
                push_member(&mut out, "waitinglistentry", resource_value(&e.waitinglistentry));
            },
            WebhookEvent::Customer(e) => {
                push_notification(&mut out, &e.notification);
                push_member(&mut out, "organizer", JsonValue::String(e.organizer.clone()));
                push_member(&mut out, "customer", JsonValue::String(e.customer.clone()));
            },
            WebhookEvent::GiftCard(e) => push_gift_card(&mut out, e),
            WebhookEvent::GiftCardTransaction(e) => {
                push_gift_card(&mut out, &e.gift_card);
                push_member(&mut out, "acceptor_id", optional_u64_value(e.acceptor_id));
                push_member(&mut out, "acceptor_slug", optional_string_value(&e.acceptor_slug));
            },
            WebhookEvent::Unknown(e) => {
                push_notification(&mut out, &e.notification);
                push_all(&mut out, &e.fields);
            },
        }
        assert(fields_view(out@) =~= self.json_members());
        out
    }

    /// Reads the typed payload from a JSON object's members.
    pub fn from_fields(fields: &Vec<(String, JsonValue)>) -> (res: Result<WebhookEvent, PayloadError>)
        ensures
            reads_payload(fields@, res),
    {
        let action = match find_field(fields, "action") {
            Some(JsonValue::String(a)) => a,
            _ => return Err(PayloadError::MissingAction),
        };
        let kind = classify_action(action.as_str());
        match kind {
            WebhookEventKind::Order => match read_order(fields) {
                Some(e) => Ok(WebhookEvent::Order(e)),
                None => Err(PayloadError::InvalidPayload(kind)),
            },
            WebhookEventKind::Checkin => match read_checkin(fields) {
                Some(e) => Ok(WebhookEvent::Checkin(e)),
                None => Err(PayloadError::InvalidPayload(kind)),
            },
            WebhookEventKind::Event => match read_event_event(fields) {
                Some(e) => Ok(WebhookEvent::Event(e)),
                None => Err(PayloadError::InvalidPayload(kind)),
            },
            WebhookEventKind::Voucher => match read_event_resource(fields, "voucher") {
                Some((e, r)) => Ok(WebhookEvent::Voucher(VoucherEvent { event: e, voucher: r })),
                None => Err(PayloadError::InvalidPayload(kind)),
            },
            WebhookEventKind::Subevent => match read_event_resource(fields, "subevent") {
                Some((e, r)) => Ok(WebhookEvent::Subevent(SubeventEvent { event: e, subevent: r })),
                None => Err(PayloadError::InvalidPayload(kind)),
            },
            WebhookEventKind::Item => match read_event_resource(fields, "item") {
                Some((e, r)) => Ok(WebhookEvent::Item(ItemEvent { event: e, item: r })),
                None => Err(PayloadError::InvalidPayload(kind)),
            },
            WebhookEventKind::WaitingList => match read_event_resource(fields, "waitinglistentry") {
                Some((e, r)) => Ok(
                    WebhookEvent::WaitingList(WaitingListEvent { event: e, waitinglistentry: r }),
                ),
                None => Err(PayloadError::InvalidPayload(kind)),
            },
            WebhookEventKind::Customer => match read_customer(fields) {
                Some(e) => Ok(WebhookEvent::Customer(e)),
                None => Err(PayloadError::InvalidPayload(kind)),
            },
            WebhookEventKind::GiftCard => match read_gift_card(fields) {
                Some(e) => Ok(WebhookEvent::GiftCard(e)),
                None => Err(PayloadError::InvalidPayload(kind)),
            },
            WebhookEventKind::GiftCardTransaction => match read_gift_card_transaction(fields) {
                Some(e) => Ok(WebhookEvent::GiftCardTransaction(e)),
                None => Err(PayloadError::InvalidPayload(kind)),
            },
            WebhookEventKind::Unknown => match read_unknown(fields) {
                Some(e) => Ok(WebhookEvent::Unknown(e)),
                None => Err(PayloadError::InvalidPayload(kind)),
            },
        }
    }

    /// Reads the typed payload from a JSON webhook body.
    pub fn from_json(bytes: &[u8]) -> (res: Result<WebhookEvent, PayloadError>)
        ensures
            reads_json_payload(bytes@, res),
    {
        match read_json_object(bytes) {
            None => Err(PayloadError::Syntax),
            Some(fields) => {
                let res = WebhookEvent::from_fields(&fields);
                assert(reads_payload(fields@, res));
                res
            },
        }
    }

    /// Returns the payload family selected from the action.
    pub fn kind(&self) -> (res: WebhookEventKind)
        ensures
            res == self.spec_kind(),
    {
        match self {
            WebhookEvent::Order(_) => WebhookEventKind::Order,
            WebhookEvent::Checkin(_) => WebhookEventKind::Checkin,
            WebhookEvent::Event(_) => WebhookEventKind::Event,
            WebhookEvent::Voucher(_) => WebhookEventKind::Voucher,
            WebhookEvent::Subevent(_) => WebhookEventKind::Subevent,
            WebhookEvent::Item(_) => WebhookEventKind::Item,
            WebhookEvent::WaitingList(_) => WebhookEventKind::WaitingList,
            WebhookEvent::Customer(_) => WebhookEventKind::Customer,
            WebhookEvent::GiftCard(_) => WebhookEventKind::GiftCard,
            WebhookEvent::GiftCardTransaction(_) => WebhookEventKind::GiftCardTransaction,
            WebhookEvent::Unknown(_) => WebhookEventKind::Unknown,
        }
    }

    /// Borrows the common envelope.
    pub fn notification(&self) -> (res: &Notification)
        ensures
            *res == self.spec_notification(),
    {
        match self {
            WebhookEvent::Order(e) => &e.notification,
            WebhookEvent::Checkin(e) => &e.order.notification,
            WebhookEvent::Event(e) => &e.notification,
            WebhookEvent::Voucher(e) => &e.event.notification,
            WebhookEvent::Subevent(e) => &e.event.notification,
            WebhookEvent::Item(e) => &e.event.notification,
            WebhookEvent::WaitingList(e) => &e.event.notification,
            WebhookEvent::Customer(e) => &e.notification,
            WebhookEvent::GiftCard(e) => &e.notification,
            WebhookEvent::GiftCardTransaction(e) => &e.gift_card.notification,
            WebhookEvent::Unknown(e) => &e.notification,
        }
    }

    /// Returns the delivery identifier supplied by pretix.
    pub fn notification_id(&self) -> (res: u64)
        ensures
            res == self.spec_notification().notification_id,
    {
        self.notification().notification_id
    }

    /// Returns the exact action string supplied by pretix.
    pub fn action(&self) -> (res: &str)
        ensures
            res@ == self.spec_notification().action@,
    {
        self.notification().action.as_str()
    }

    /// Returns the organizer slug used for filtering, when present and valid.
    pub fn organizer_slug(&self) -> (res: Option<&str>)
        ensures
            str_opt_view(res) == self.spec_organizer_slug(),
    {
        match self {
            WebhookEvent::Order(e) => Some(e.organizer.as_str()),
            WebhookEvent::Checkin(e) => Some(e.order.organizer.as_str()),
            WebhookEvent::Event(e) => Some(e.organizer.as_str()),
            WebhookEvent::Voucher(e) => Some(e.event.organizer.as_str()),
            WebhookEvent::Subevent(e) => Some(e.event.organizer.as_str()),
            WebhookEvent::Item(e) => Some(e.event.organizer.as_str()),
            WebhookEvent::WaitingList(e) => Some(e.event.organizer.as_str()),
            WebhookEvent::Customer(e) => Some(e.organizer.as_str()),
            WebhookEvent::GiftCard(e) => Some(e.issuer_slug.as_str()),
            WebhookEvent::GiftCardTransaction(e) => Some(e.gift_card.issuer_slug.as_str()),
            WebhookEvent::Unknown(e) => {
                let organizer = find_field(&e.fields, "organizer");
                if organizer.is_some() {
                    value_as_str(organizer)
                } else {
                    value_as_str(find_field(&e.fields, "issuer_slug"))
                }
            },
        }
    }

    /// Reports whether the payload concerns one specific event.
    pub fn is_event_level(&self) -> (res: bool)
        ensures
            res == self.spec_is_event_level(),
    {
        match self {
            WebhookEvent::Customer(_) => false,
            WebhookEvent::GiftCard(_) => false,
            WebhookEvent::GiftCardTransaction(_) => false,
            WebhookEvent::Unknown(e) => find_field(&e.fields, "event").is_some(),
            _ => true,
        }
    }

    /// Returns the event slug used for filtering, when present and valid.
    pub fn event_slug(&self) -> (res: Option<&str>)
        ensures
            str_opt_view(res) == self.spec_event_slug(),
    {
        match self {
            WebhookEvent::Order(e) => Some(e.event.as_str()),
            WebhookEvent::Checkin(e) => Some(e.order.event.as_str()),
            WebhookEvent::Event(e) => Some(e.event.as_str()),
            WebhookEvent::Voucher(e) => Some(e.event.event.as_str()),
            WebhookEvent::Subevent(e) => Some(e.event.event.as_str()),
            WebhookEvent::Item(e) => Some(e.event.event.as_str()),
            WebhookEvent::WaitingList(e) => Some(e.event.event.as_str()),
            WebhookEvent::Customer(_) => None,
            WebhookEvent::GiftCard(_) => None,
            WebhookEvent::GiftCardTransaction(_) => None,
            WebhookEvent::Unknown(e) => value_as_str(find_field(&e.fields, "event")),
        }
    }

    /// Borrows the payload when this is an order event.
    pub fn as_order(&self) -> (res: Option<&OrderEvent>)
        ensures
            match self {
                WebhookEvent::Order(e) => res == Some(e),
                _ => res is None,
            },
    {
        match self {
            WebhookEvent::Order(e) => Some(e),
            _ => None,
        }
    }

    /// Borrows the payload when this is a check-in event.
    pub fn as_checkin(&self) -> (res: Option<&CheckinEvent>)
        ensures
            match self {
                WebhookEvent::Checkin(e) => res == Some(e),
                _ => res is None,
            },
    {
        match self {
            WebhookEvent::Checkin(e) => Some(e),
            _ => None,
        }
    }
}

/// Looking up a key outside the envelope among the kept members of an
/// unknown payload gives what the whole object holds under that key.
pub proof fn lemma_field_unreserved(f: Seq<(String, JsonValue)>, k: Seq<char>)
    requires
        !is_reserved_key(k),
    ensures
        field(unreserved_fields(f), k) == field(f, k),
    decreases f.len(),
{
    let pred = |e: (String, JsonValue)| !is_reserved_key(e.0@);
    reveal_with_fuel(Seq::<_>::filter, 1);
    if f.len() > 0 {
        let rest = f.drop_first();
        assert(f =~= seq![f[0]] + rest);
        rest.lemma_filter_prepend(f[0], pred);
        lemma_field_unreserved(rest, k);
        let fr = rest.filter(pred);
        if pred(f[0]) {
            assert((seq![f[0]] + fr).drop_first() =~= fr);
        } else {
            assert(Seq::<(String, JsonValue)>::empty() + fr =~= fr);
        }
    }
}

/// Reading a typed family never yields an unknown payload.
proof fn lemma_typed_not_unknown(f: Seq<(String, JsonValue)>, kind: WebhookEventKind)
    ensures
        !(typed_event_from_fields(f, kind) matches Ok(WebhookEvent::Unknown(_))),
{
}

/// Forwarding keeps every member: an unknown payload read from an object
/// serializes to members under which every key finds what the object held.
pub proof fn lemma_unknown_payload_keeps_members(
    f: Seq<(String, JsonValue)>,
    r: Result<WebhookEvent, PayloadError>,
    k: Seq<char>,
)
    requires
        reads_payload(f, r),
        r matches Ok(WebhookEvent::Unknown(_)),
    ensures
        r matches Ok(e) && field_view(e.json_members(), k) == field_view(fields_view(f), k),
{
    let e = r->Ok_0;
    let u = e->Unknown_0;
    let n = u.notification;
    lemma_typed_not_unknown(f, action_kind(json_string(field(f, "action"@))->0@));
    assert(notification_from(f) == Some(n));
    assert(u.fields@ == unreserved_fields(f));
    assert(field(f, "notification_id"@) == Some(JsonValue::Unsigned(n.notification_id)));
    assert(field(f, "action"@) == Some(JsonValue::String(n.action)));
    let kept = fields_view(u.fields@);
    let members = notification_members(n) + kept;
    lemma_field_view(f, k);
    assert("notification_id"@ != "action"@) by {
        reveal_strlit("notification_id");
        reveal_strlit("action");
        assert("notification_id"@.len() == 15);
        assert("action"@.len() == 6);
    }
    assert(e.json_members() == members);
    assert(members[0] == ("notification_id"@, JsonView::Unsigned(n.notification_id)));
    assert(members[1] == ("action"@, JsonView::String(n.action@)));
    assert(members.drop_first().drop_first() =~= kept);
    if k == "notification_id"@ {
        assert(field_view(members, k) == Some(JsonView::Unsigned(n.notification_id)));
    } else if k == "action"@ {
        assert(members.drop_first()[0] == members[1]);
        assert(field_view(members, k) == Some(JsonView::String(n.action@)));
    } else {
        assert(members.drop_first()[0] == members[1]);
        assert(field_view(members, k) == field_view(members.drop_first(), k));
        assert(field_view(members.drop_first(), k) == field_view(kept, k));
        lemma_field_view(u.fields@, k);
        lemma_field_unreserved(f, k);
    }
}

/// The lengths of the member keys, which tell most of them apart.
proof fn lemma_key_lengths()
    ensures
        "notification_id"@.len() == 15,
        "action"@.len() == 6,
        "organizer"@.len() == 9,
        "event"@.len() == 5,
        "code"@.len() == 4,
        "orderposition_id"@.len() == 16,
        "orderposition_positionid"@.len() == 24,
        "checkin_list"@.len() == 12,
        "type"@.len() == 4,
        "first_checkin"@.len() == 13,
        "voucher"@.len() == 7,
        "subevent"@.len() == 8,
        "item"@.len() == 4,
        "waitinglistentry"@.len() == 16,
        "customer"@.len() == 8,
        "issuer_id"@.len() == 9,
        "issuer_slug"@.len() == 11,
        "giftcard"@.len() == 8,
        "acceptor_id"@.len() == 11,
        "acceptor_slug"@.len() == 13,
        "code"@ != "type"@,
        "issuer_slug"@ != "acceptor_id"@,
{
    reveal_strlit("notification_id");
    reveal_strlit("action");
    reveal_strlit("organizer");
    reveal_strlit("event");
    reveal_strlit("code");
    reveal_strlit("orderposition_id");
    reveal_strlit("orderposition_positionid");
    reveal_strlit("checkin_list");
    reveal_strlit("type");
    reveal_strlit("first_checkin");
    reveal_strlit("voucher");
    reveal_strlit("subevent");
    reveal_strlit("item");
    reveal_strlit("waitinglistentry");
    reveal_strlit("customer");
    reveal_strlit("issuer_id");
    reveal_strlit("issuer_slug");
    reveal_strlit("giftcard");
    reveal_strlit("acceptor_id");
    reveal_strlit("acceptor_slug");
    assert("code"@[0] != "type"@[0]);
    assert("issuer_slug"@[0] != "acceptor_id"@[0]);
}

/// Keys that are pairwise different.
pub open spec fn distinct_keys(m: Seq<(Seq<char>, JsonView)>) -> bool {
    forall|a: int, b: int| 0 <= a < b < m.len() ==> m[a].0 != m[b].0
}

/// Among pairwise different keys, each key finds its own value.
proof fn lemma_member_lookup(m: Seq<(Seq<char>, JsonView)>, i: int)
    requires
        0 <= i < m.len(),
        forall|a: int| 0 <= a < i ==> #[trigger] m[a].0 != m[i].0,
    ensures
        field_view(m, m[i].0) == Some(m[i].1),
    decreases i,
{
    if i > 0 {
        let rest = m.drop_first();
        assert(m[0].0 != m[i].0);
        assert(rest[i - 1] == m[i]);
        assert forall|a: int| 0 <= a < i - 1 implies #[trigger] rest[a].0 != rest[i - 1].0 by {
            assert(rest[a] == m[a + 1]);
        }
        lemma_member_lookup(rest, i - 1);
    }
}

/// What the members `f` hold under the `i`-th key of `m`, when `f` is viewed as `m`.
proof fn lemma_lookup_in(f: Seq<(String, JsonValue)>, m: Seq<(Seq<char>, JsonView)>, i: int)
    requires
        fields_view(f) == m,
        0 <= i < m.len(),
        forall|a: int| 0 <= a < i ==> #[trigger] m[a].0 != m[i].0,
    ensures
        field(f, m[i].0) matches Some(v) && v@ == m[i].1,
{
    lemma_member_lookup(m, i);
    lemma_field_view(f, m[i].0);
}

/// Each member of an envelope-led payload is found under its key.
proof fn lemma_notification_lookups(f: Seq<(String, JsonValue)>, m: Seq<(Seq<char>, JsonView)>, n: Notification)
    requires
        fields_view(f) == m,
        m.len() >= 2,
        m.subrange(0, 2) == notification_members(n),
        "notification_id"@ != "action"@,
    ensures
        notification_from(f) matches Some(n2) && n2.notification_id == n.notification_id && n2.action@ == n.action@,
{
    assert(m[0] == notification_members(n)[0]);
    assert(m[1] == notification_members(n)[1]);
    lemma_lookup_in(f, m, 0);
    lemma_lookup_in(f, m, 1);
}

/// Serializing a consistent payload and reading the members back gives a
/// payload of the same family that serializes to the same members.
#[verifier::spinoff_prover]
pub proof fn lemma_read_after_serialize(
    e: WebhookEvent,
    f: Seq<(String, JsonValue)>,
    r: Result<WebhookEvent, PayloadError>,
)
    requires
        e.is_consistent(),
        fields_view(f) == e.json_members(),
        reads_payload(f, r),
    ensures
        r matches Ok(e2) && e2.spec_kind() == e.spec_kind() && e2.json_members() == e.json_members(),
{
    lemma_key_lengths();
    let m = e.json_members();
    let n = e.spec_notification();
    assert(m.subrange(0, 2) =~= notification_members(n));
    assert(m[0] == notification_members(n)[0]);
    assert(m[1] == notification_members(n)[1]);
    lemma_notification_lookups(f, m, n);
    lemma_lookup_in(f, m, 1);
    assert(json_string(field(f, "action"@)) matches Some(a) && a@ == n.action@);
    lemma_typed_not_unknown(f, e.spec_kind());
    if !(e is Unknown) {
        assert(distinct_keys(m));
    }
    if !(e is Unknown) && m.len() > 2 {
        lemma_lookup_in(f, m, 2);
    }
    if !(e is Unknown) && m.len() > 3 {
        lemma_lookup_in(f, m, 3);
    }
    if !(e is Unknown) && m.len() > 4 {
        lemma_lookup_in(f, m, 4);
    }
    if !(e is Unknown) && m.len() > 5 {
        lemma_lookup_in(f, m, 5);
    }
    if !(e is Unknown) && m.len() > 6 {
        lemma_lookup_in(f, m, 6);
    }
    if !(e is Unknown) && m.len() > 7 {
        lemma_lookup_in(f, m, 7);
    }
    if !(e is Unknown) && m.len() > 8 {
        lemma_lookup_in(f, m, 8);
    }
    if !(e is Unknown) && m.len() > 9 {
        lemma_lookup_in(f, m, 9);
    }
    match e {
        WebhookEvent::Unknown(u) => {
            let kept = u.fields@;
            let head = f.subrange(0, 2);
            let tail = f.subrange(2, f.len() as int);
            assert(f =~= head + tail);
            let pred = |x: (String, JsonValue)| !is_reserved_key(x.0@);
            Seq::filter_distributes_over_add(head, tail, pred);
            assert(fields_view(head) =~= m.subrange(0, 2));
            assert(fields_view(tail) =~= fields_view(f).subrange(2, f.len() as int));
            assert(fields_view(tail) =~= fields_view(kept));
            assert forall|i: int| 0 <= i < tail.len() implies !is_reserved_key(
                #[trigger] tail[i].0@,
            ) by {
                assert(fields_view(tail)[i] == fields_view(kept)[i]);
                assert(!is_reserved_key(kept[i].0@));
            }
            lemma_filter_keeps_all(tail);
            lemma_filter_drops_envelope(head);
            assert(unreserved_fields(f) =~= tail);
            let e2 = r->Ok_0;
            assert(e2.json_members() =~= m);
        },
        _ => {
            let e2 = r->Ok_0;
            assert(e2.json_members() =~= m);
        },
    }
}

/// Members whose keys lie outside the envelope are all kept.
proof fn lemma_filter_keeps_all(t: Seq<(String, JsonValue)>)
    requires
        forall|i: int| 0 <= i < t.len() ==> !is_reserved_key(#[trigger] t[i].0@),
    ensures
        unreserved_fields(t) == t,
    decreases t.len(),
{
    reveal_with_fuel(Seq::<_>::filter, 1);
    if t.len() > 0 {
        let init = t.drop_last();
        assert forall|i: int| 0 <= i < init.len() implies !is_reserved_key(#[trigger] init[i].0@) by {
            assert(init[i] == t[i]);
        }
        lemma_filter_keeps_all(init);
        assert(t.last() == t[t.len() - 1]);
        assert(init.push(t.last()) =~= t);
    }
}

/// The two envelope members are all dropped.
proof fn lemma_filter_drops_envelope(h: Seq<(String, JsonValue)>)
    requires
        h.len() == 2,
        h[0].0@ == "notification_id"@,
        h[1].0@ == "action"@,
    ensures
        unreserved_fields(h) == Seq::<(String, JsonValue)>::empty(),
{
    reveal_with_fuel(Seq::<_>::filter, 3);
    assert(h.drop_last().drop_last() =~= Seq::<(String, JsonValue)>::empty());
    assert(h.drop_last().last() == h[0]);
}

/// The action selects the payload family: a payload read from an object
/// carries that object's action, and its family is the one the action names.
pub proof fn lemma_action_selects_kind(f: Seq<(String, JsonValue)>, r: Result<WebhookEvent, PayloadError>)
    requires
        reads_payload(f, r),
        r is Ok,
    ensures
        json_string(field(f, "action"@)) matches Some(a) && r->Ok_0.spec_notification().action == a
            && r->Ok_0.spec_kind() == action_kind(a@),
{
}

/// The text a member holds, when it holds a string.
pub open spec fn member_text(v: Option<JsonView>) -> Option<Seq<char>> {
    match v {
        Some(JsonView::String(s)) => Some(s),
        _ => None,
    }
}

proof fn lemma_field_view_absent(m: Seq<(Seq<char>, JsonView)>, k: Seq<char>)
    requires
        forall|i: int| 0 <= i < m.len() ==> #[trigger] m[i].0 != k,
    ensures
        field_view(m, k) is None,
    decreases m.len(),
{
    if m.len() > 0 {
        assert(m[0].0 != k);
        assert forall|i: int| 0 <= i < m.drop_first().len() implies #[trigger] m.drop_first()[i].0
            != k by {
            assert(m.drop_first()[i] == m[i + 1]);
        }
        lemma_field_view_absent(m.drop_first(), k);
    }
}

proof fn lemma_field_view_concat(a: Seq<(Seq<char>, JsonView)>, b: Seq<(Seq<char>, JsonView)>, k: Seq<char>)
    ensures
        field_view(a + b, k) == match field_view(a, k) {
            Some(v) => Some(v),
            None => field_view(b, k),
        },
    decreases a.len(),
{
    if a.len() > 0 {
        assert((a + b)[0] == a[0]);
        assert((a + b).drop_first() =~= a.drop_first() + b);
        lemma_field_view_concat(a.drop_first(), b, k);
    } else {
        assert(a + b =~= b);
    }
}

/// The first member of `m` named `k` is the one at `i`.
proof fn lemma_found_at(m: Seq<(Seq<char>, JsonView)>, i: int, k: Seq<char>)
    requires
        0 <= i < m.len(),
        m[i].0 == k,
        forall|a: int| 0 <= a < i ==> #[trigger] m[a].0 != k,
    ensures
        field_view(m, k) == Some(m[i].1),
{
    lemma_member_lookup(m, i);
}

proof fn lemma_more_key_facts()
    ensures
        "organizer"@ != "issuer_id"@,
        "event"@ != "type"@,
{
    reveal_strlit("organizer");
    reveal_strlit("issuer_id");
    reveal_strlit("event");
    reveal_strlit("type");
    assert("organizer"@[0] != "issuer_id"@[0]);
    assert("event"@.len() != "type"@.len());
}

/// The identity a payload is filtered by is what it carries on the wire:
/// its organizer is the string under `organizer`, or, where it has no such
/// member, under `issuer_slug`; its event slug is the string under `event`;
/// and it concerns one specific event exactly when it has an `event` member.
pub proof fn lemma_identity_from_members(e: WebhookEvent)
    ensures
        e.spec_organizer_slug() == match field_view(e.json_members(), "organizer"@) {
            Some(v) => member_text(Some(v)),
            None => member_text(field_view(e.json_members(), "issuer_slug"@)),
        },
        e.spec_event_slug() == member_text(field_view(e.json_members(), "event"@)),
        e.spec_is_event_level() == (field_view(e.json_members(), "event"@) is Some),
{
    lemma_key_lengths();
    lemma_more_key_facts();
    let m = e.json_members();
    match e {
        WebhookEvent::Unknown(u) => {
            let head = notification_members(u.notification);
            let kept = fields_view(u.fields@);
            lemma_field_view_absent(head, "organizer"@);
            lemma_field_view_absent(head, "issuer_slug"@);
            lemma_field_view_absent(head, "event"@);
            lemma_field_view_concat(head, kept, "organizer"@);
            lemma_field_view_concat(head, kept, "issuer_slug"@);
            lemma_field_view_concat(head, kept, "event"@);
            lemma_field_view(u.fields@, "organizer"@);
            lemma_field_view(u.fields@, "issuer_slug"@);
            lemma_field_view(u.fields@, "event"@);
        },
        WebhookEvent::Customer(c) => {
            lemma_found_at(m, 2, "organizer"@);
            lemma_field_view_absent(m, "event"@);
        },
        WebhookEvent::GiftCard(g) => {
            lemma_field_view_absent(m, "organizer"@);
            lemma_found_at(m, 3, "issuer_slug"@);
            lemma_field_view_absent(m, "event"@);
        },
        WebhookEvent::GiftCardTransaction(t) => {
            lemma_field_view_absent(m, "organizer"@);
            lemma_found_at(m, 3, "issuer_slug"@);
            lemma_field_view_absent(m, "event"@);
        },
        _ => {
            lemma_found_at(m, 2, "organizer"@);
            lemma_found_at(m, 3, "event"@);
        },
    }
}

/// Every typed family that names an event (orders, check-ins, events,
/// vouchers, event-series dates, items and waiting lists) concerns one
/// specific event, so an event filter is consulted for it; customers and
/// gift cards concern the organizer only.
pub proof fn lemma_event_level_families(e: WebhookEvent)
    ensures
        e.spec_kind() == WebhookEventKind::Order || e.spec_kind() == WebhookEventKind::Checkin
            || e.spec_kind() == WebhookEventKind::Event || e.spec_kind() == WebhookEventKind::Voucher
            || e.spec_kind() == WebhookEventKind::Subevent || e.spec_kind() == WebhookEventKind::Item
            || e.spec_kind() == WebhookEventKind::WaitingList ==> e.spec_is_event_level()
            && e.spec_event_slug() is Some,
        e.spec_kind() == WebhookEventKind::Customer || e.spec_kind() == WebhookEventKind::GiftCard
            || e.spec_kind() == WebhookEventKind::GiftCardTransaction ==> !e.spec_is_event_level()
            && e.spec_event_slug() is None,
{
    lemma_identity_from_members(e);
}

/// Gift-card payloads, transactions included, are filtered by their issuing
/// organizer, never by the accepting one.
pub proof fn lemma_gift_cards_filter_by_issuer(e: WebhookEvent)
    ensures
        e matches WebhookEvent::GiftCard(g) ==> e.spec_organizer_slug() == Some(g.issuer_slug@),
        e matches WebhookEvent::GiftCardTransaction(t) ==> e.spec_organizer_slug() == Some(
            t.gift_card.issuer_slug@,
        ),
{
    lemma_identity_from_members(e);
}

/// The check-in and event actions that pretix documents select their
/// families.
pub proof fn lemma_exact_core_actions()
    ensures
        action_kind("pretix.event.checkin"@) == WebhookEventKind::Checkin,
        action_kind("pretix.event.checkin.reverted"@) == WebhookEventKind::Checkin,
        action_kind("pretix.event.added"@) == WebhookEventKind::Event,
        action_kind("pretix.event.changed"@) == WebhookEventKind::Event,
        action_kind("pretix.event.deleted"@) == WebhookEventKind::Event,
        action_kind("pretix.event.live.activated"@) == WebhookEventKind::Event,
        action_kind("pretix.event.live.deactivated"@) == WebhookEventKind::Event,
        action_kind("pretix.event.testmode.activated"@) == WebhookEventKind::Event,
        action_kind("pretix.event.testmode.deactivated"@) == WebhookEventKind::Event,
{
    assert(action_kind("pretix.event.checkin"@) == WebhookEventKind::Checkin) by {
        reveal_strlit("pretix.event.checkin");
        assert("pretix.event.checkin"@.len() == 20);
    }
    assert(action_kind("pretix.event.checkin.reverted"@) == WebhookEventKind::Checkin) by {
        reveal_strlit("pretix.event.checkin");
        reveal_strlit("pretix.event.checkin.reverted");
        assert("pretix.event.checkin.reverted"@.len() == 29);
        assert("pretix.event.checkin"@.len() == 20);
    }
    assert(action_kind("pretix.event.added"@) == WebhookEventKind::Event) by {
        reveal_strlit("pretix.event.added");
        reveal_strlit("pretix.event.checkin");
        reveal_strlit("pretix.event.checkin.reverted");
        reveal_strlit("pretix.event.order.");
        assert("pretix.event.added"@.len() == 18);
        assert("pretix.event.checkin"@.len() == 20);
        assert("pretix.event.checkin.reverted"@.len() == 29);
        assert("pretix.event.order."@.len() == 19);
    }
    assert(action_kind("pretix.event.changed"@) == WebhookEventKind::Event) by {
        reveal_strlit("pretix.event.added");
        reveal_strlit("pretix.event.changed");
        reveal_strlit("pretix.event.checkin");
        reveal_strlit("pretix.event.checkin.reverted");
        reveal_strlit("pretix.event.order.");
        assert("pretix.event.changed"@.len() == 20);
        assert("pretix.event.checkin"@.len() == 20);
        assert("pretix.event.changed"@[15] != "pretix.event.checkin"@[15]);
        assert("pretix.event.checkin.reverted"@.len() == 29);
        assert("pretix.event.order."@.len() == 19);
        assert("pretix.event.changed"@.subrange(0, 19)[13] != "pretix.event.order."@[13]);
        assert("pretix.event.added"@.len() == 18);
    }
    assert(action_kind("pretix.event.deleted"@) == WebhookEventKind::Event) by {
        reveal_strlit("pretix.event.added");
        reveal_strlit("pretix.event.changed");
        reveal_strlit("pretix.event.checkin");
        reveal_strlit("pretix.event.checkin.reverted");
        reveal_strlit("pretix.event.deleted");
        reveal_strlit("pretix.event.order.");
        assert("pretix.event.deleted"@.len() == 20);
        assert("pretix.event.checkin"@.len() == 20);
        assert("pretix.event.deleted"@[13] != "pretix.event.checkin"@[13]);
        assert("pretix.event.checkin.reverted"@.len() == 29);
        assert("pretix.event.order."@.len() == 19);
        assert("pretix.event.deleted"@.subrange(0, 19)[13] != "pretix.event.order."@[13]);
        assert("pretix.event.added"@.len() == 18);
        assert("pretix.event.changed"@.len() == 20);
        assert("pretix.event.deleted"@[13] != "pretix.event.changed"@[13]);
    }
    assert(action_kind("pretix.event.live.activated"@) == WebhookEventKind::Event) by {
        reveal_strlit("pretix.event.added");
        reveal_strlit("pretix.event.changed");
        reveal_strlit("pretix.event.checkin");
        reveal_strlit("pretix.event.checkin.reverted");
        reveal_strlit("pretix.event.deleted");
        reveal_strlit("pretix.event.live.activated");
        reveal_strlit("pretix.event.order.");
        assert("pretix.event.live.activated"@.len() == 27);
        assert("pretix.event.checkin"@.len() == 20);
        assert("pretix.event.checkin.reverted"@.len() == 29);
        assert("pretix.event.order."@.len() == 19);
        assert("pretix.event.live.activated"@.subrange(0, 19)[13] != "pretix.event.order."@[13]);
        assert("pretix.event.added"@.len() == 18);
        assert("pretix.event.changed"@.len() == 20);
        assert("pretix.event.deleted"@.len() == 20);
    }
    assert(action_kind("pretix.event.live.deactivated"@) == WebhookEventKind::Event) by {
        reveal_strlit("pretix.event.added");
        reveal_strlit("pretix.event.changed");
        reveal_strlit("pretix.event.checkin");
        reveal_strlit("pretix.event.checkin.reverted");
        reveal_strlit("pretix.event.deleted");
        reveal_strlit("pretix.event.live.activated");
        reveal_strlit("pretix.event.live.deactivated");
        reveal_strlit("pretix.event.order.");
        assert("pretix.event.live.deactivated"@.len() == 29);
        assert("pretix.event.checkin"@.len() == 20);
        assert("pretix.event.checkin.reverted"@.len() == 29);
        assert("pretix.event.live.deactivated"@[13] != "pretix.event.checkin.reverted"@[13]);
        assert("pretix.event.order."@.len() == 19);
        assert("pretix.event.live.deactivated"@.subrange(0, 19)[13] != "pretix.event.order."@[13]);
        assert("pretix.event.added"@.len() == 18);
        assert("pretix.event.changed"@.len() == 20);
        assert("pretix.event.deleted"@.len() == 20);
        assert("pretix.event.live.activated"@.len() == 27);
    }
    assert(action_kind("pretix.event.testmode.activated"@) == WebhookEventKind::Event) by {
        reveal_strlit("pretix.event.added");
        reveal_strlit("pretix.event.changed");
        reveal_strlit("pretix.event.checkin");
        reveal_strlit("pretix.event.checkin.reverted");
        reveal_strlit("pretix.event.deleted");
        reveal_strlit("pretix.event.live.activated");
        reveal_strlit("pretix.event.live.deactivated");
        reveal_strlit("pretix.event.order.");
        reveal_strlit("pretix.event.testmode.activated");
        assert("pretix.event.testmode.activated"@.len() == 31);
        assert("pretix.event.checkin"@.len() == 20);
        assert("pretix.event.checkin.reverted"@.len() == 29);
        assert("pretix.event.order."@.len() == 19);
        assert("pretix.event.testmode.activated"@.subrange(0, 19)[13] != "pretix.event.order."@[13]);
        assert("pretix.event.added"@.len() == 18);
        assert("pretix.event.changed"@.len() == 20);
        assert("pretix.event.deleted"@.len() == 20);
        assert("pretix.event.live.activated"@.len() == 27);
        assert("pretix.event.live.deactivated"@.len() == 29);
    }
    assert(action_kind("pretix.event.testmode.deactivated"@) == WebhookEventKind::Event) by {
        reveal_strlit("pretix.event.added");
        reveal_strlit("pretix.event.changed");
        reveal_strlit("pretix.event.checkin");
        reveal_strlit("pretix.event.checkin.reverted");
        reveal_strlit("pretix.event.deleted");
        reveal_strlit("pretix.event.live.activated");
        reveal_strlit("pretix.event.live.deactivated");
        reveal_strlit("pretix.event.order.");
        reveal_strlit("pretix.event.testmode.activated");
        reveal_strlit("pretix.event.testmode.deactivated");
        assert("pretix.event.testmode.deactivated"@.len() == 33);
        assert("pretix.event.checkin"@.len() == 20);
        assert("pretix.event.checkin.reverted"@.len() == 29);
        assert("pretix.event.order."@.len() == 19);
        assert("pretix.event.testmode.deactivated"@.subrange(0, 19)[13] != "pretix.event.order."@[13]);
        assert("pretix.event.added"@.len() == 18);
        assert("pretix.event.changed"@.len() == 20);
        assert("pretix.event.deleted"@.len() == 20);
        assert("pretix.event.live.activated"@.len() == 27);
        assert("pretix.event.live.deactivated"@.len() == 29);
        assert("pretix.event.testmode.activated"@.len() == 31);
    }
}

/// Actions of the documented prefixed families select those families;
/// other actions are unknown.
pub proof fn lemma_prefixed_core_actions()
    ensures
        action_kind("pretix.event.order.placed"@) == WebhookEventKind::Order,
        action_kind("pretix.event.order.paid"@) == WebhookEventKind::Order,
        action_kind("pretix.event.order.canceled"@) == WebhookEventKind::Order,
        action_kind("pretix.voucher.added"@) == WebhookEventKind::Voucher,
        action_kind("pretix.voucher.changed"@) == WebhookEventKind::Voucher,
        action_kind("pretix.subevent.added"@) == WebhookEventKind::Subevent,
        action_kind("pretix.event.item.changed"@) == WebhookEventKind::Item,
        action_kind("pretix.event.quota.added"@) == WebhookEventKind::Item,
        action_kind("pretix.event.orders.waitinglist.added"@) == WebhookEventKind::WaitingList,
        action_kind("pretix.customer.created"@) == WebhookEventKind::Customer,
        action_kind("pretix.giftcards.created"@) == WebhookEventKind::GiftCard,
        action_kind("pretix.giftcards.transaction.redeemed"@) == WebhookEventKind::GiftCardTransaction,
        action_kind("pretix.plugin.badge.printed"@) == WebhookEventKind::Unknown,
        action_kind("pretix.event.reordered"@) == WebhookEventKind::Unknown,
{
    assert(action_kind("pretix.event.order.placed"@) == WebhookEventKind::Order) by {
        reveal_strlit("pretix.event.checkin");
        reveal_strlit("pretix.event.checkin.reverted");
        reveal_strlit("pretix.event.order.");
        reveal_strlit("pretix.event.order.placed");
        assert("pretix.event.order.placed"@.len() == 25);
        assert("pretix.event.checkin"@.len() == 20);
        assert("pretix.event.checkin.reverted"@.len() == 29);
        assert("pretix.event.order."@.len() == 19);
        assert("pretix.event.order.placed"@.subrange(0, 19) =~= "pretix.event.order."@);
    }
    assert(action_kind("pretix.event.order.paid"@) == WebhookEventKind::Order) by {
        reveal_strlit("pretix.event.checkin");
        reveal_strlit("pretix.event.checkin.reverted");
        reveal_strlit("pretix.event.order.");
        reveal_strlit("pretix.event.order.paid");
        assert("pretix.event.order.paid"@.len() == 23);
        assert("pretix.event.checkin"@.len() == 20);
        assert("pretix.event.checkin.reverted"@.len() == 29);
        assert("pretix.event.order."@.len() == 19);
        assert("pretix.event.order.paid"@.subrange(0, 19) =~= "pretix.event.order."@);
    }
    assert(action_kind("pretix.event.order.canceled"@) == WebhookEventKind::Order) by {
        reveal_strlit("pretix.event.checkin");
        reveal_strlit("pretix.event.checkin.reverted");
        reveal_strlit("pretix.event.order.");
        reveal_strlit("pretix.event.order.canceled");
        assert("pretix.event.order.canceled"@.len() == 27);
        assert("pretix.event.checkin"@.len() == 20);
        assert("pretix.event.checkin.reverted"@.len() == 29);
        assert("pretix.event.order."@.len() == 19);
        assert("pretix.event.order.canceled"@.subrange(0, 19) =~= "pretix.event.order."@);
    }
    assert(action_kind("pretix.voucher.added"@) == WebhookEventKind::Voucher) by {
        reveal_strlit("pretix.event.added");
        reveal_strlit("pretix.event.changed");
        reveal_strlit("pretix.event.checkin");
        reveal_strlit("pretix.event.checkin.reverted");
        reveal_strlit("pretix.event.deleted");
        reveal_strlit("pretix.event.live.activated");
        reveal_strlit("pretix.event.live.deactivated");
        reveal_strlit("pretix.event.order.");
        reveal_strlit("pretix.event.testmode.activated");
        reveal_strlit("pretix.event.testmode.deactivated");
        reveal_strlit("pretix.voucher.");
        reveal_strlit("pretix.voucher.added");
        assert("pretix.voucher.added"@.len() == 20);
        assert("pretix.event.checkin"@.len() == 20);
        assert("pretix.voucher.added"@[7] != "pretix.event.checkin"@[7]);
        assert("pretix.event.checkin.reverted"@.len() == 29);
        assert("pretix.event.order."@.len() == 19);
        assert("pretix.voucher.added"@.subrange(0, 19)[7] != "pretix.event.order."@[7]);
        assert("pretix.event.added"@.len() == 18);
        assert("pretix.event.changed"@.len() == 20);
        assert("pretix.voucher.added"@[7] != "pretix.event.changed"@[7]);
        assert("pretix.event.deleted"@.len() == 20);
        assert("pretix.voucher.added"@[7] != "pretix.event.deleted"@[7]);
        assert("pretix.event.live.activated"@.len() == 27);
        assert("pretix.event.live.deactivated"@.len() == 29);
        assert("pretix.event.testmode.activated"@.len() == 31);
        assert("pretix.event.testmode.deactivated"@.len() == 33);
        assert("pretix.voucher."@.len() == 15);
        assert("pretix.voucher.added"@.subrange(0, 15) =~= "pretix.voucher."@);
    }
    assert(action_kind("pretix.voucher.changed"@) == WebhookEventKind::Voucher) by {
        reveal_strlit("pretix.event.added");
        reveal_strlit("pretix.event.changed");
        reveal_strlit("pretix.event.checkin");
        reveal_strlit("pretix.event.checkin.reverted");
        reveal_strlit("pretix.event.deleted");
        reveal_strlit("pretix.event.live.activated");
        reveal_strlit("pretix.event.live.deactivated");
        reveal_strlit("pretix.event.order.");
        reveal_strlit("pretix.event.testmode.activated");
        reveal_strlit("pretix.event.testmode.deactivated");
        reveal_strlit("pretix.voucher.");
        reveal_strlit("pretix.voucher.changed");
        assert("pretix.voucher.changed"@.len() == 22);
        assert("pretix.event.checkin"@.len() == 20);
        assert("pretix.event.checkin.reverted"@.len() == 29);
        assert("pretix.event.order."@.len() == 19);
        assert("pretix.voucher.changed"@.subrange(0, 19)[7] != "pretix.event.order."@[7]);
        assert("pretix.event.added"@.len() == 18);
        assert("pretix.event.changed"@.len() == 20);
        assert("pretix.event.deleted"@.len() == 20);
        assert("pretix.event.live.activated"@.len() == 27);
        assert("pretix.event.live.deactivated"@.len() == 29);
        assert("pretix.event.testmode.activated"@.len() == 31);
        assert("pretix.event.testmode.deactivated"@.len() == 33);
        assert("pretix.voucher."@.len() == 15);
        assert("pretix.voucher.changed"@.subrange(0, 15) =~= "pretix.voucher."@);
    }
    assert(action_kind("pretix.subevent.added"@) == WebhookEventKind::Subevent) by {
        reveal_strlit("pretix.event.added");
        reveal_strlit("pretix.event.changed");
        reveal_strlit("pretix.event.checkin");
        reveal_strlit("pretix.event.checkin.reverted");
        reveal_strlit("pretix.event.deleted");
        reveal_strlit("pretix.event.live.activated");
        reveal_strlit("pretix.event.live.deactivated");
        reveal_strlit("pretix.event.order.");
        reveal_strlit("pretix.event.testmode.activated");
        reveal_strlit("pretix.event.testmode.deactivated");
        reveal_strlit("pretix.subevent.");
        reveal_strlit("pretix.subevent.added");
        reveal_strlit("pretix.voucher.");
        assert("pretix.subevent.added"@.len() == 21);
        assert("pretix.event.checkin"@.len() == 20);
        assert("pretix.event.checkin.reverted"@.len() == 29);
        assert("pretix.event.order."@.len() == 19);
        assert("pretix.subevent.added"@.subrange(0, 19)[7] != "pretix.event.order."@[7]);
        assert("pretix.event.added"@.len() == 18);
        assert("pretix.event.changed"@.len() == 20);
        assert("pretix.event.deleted"@.len() == 20);
        assert("pretix.event.live.activated"@.len() == 27);
        assert("pretix.event.live.deactivated"@.len() == 29);
        assert("pretix.event.testmode.activated"@.len() == 31);
        assert("pretix.event.testmode.deactivated"@.len() == 33);
        assert("pretix.voucher."@.len() == 15);
        assert("pretix.subevent.added"@.subrange(0, 15)[7] != "pretix.voucher."@[7]);
        assert("pretix.subevent."@.len() == 16);
        assert("pretix.subevent.added"@.subrange(0, 16) =~= "pretix.subevent."@);
    }
    assert(action_kind("pretix.event.item.changed"@) == WebhookEventKind::Item) by {
        reveal_strlit("pretix.event.added");
        reveal_strlit("pretix.event.changed");
        reveal_strlit("pretix.event.checkin");
        reveal_strlit("pretix.event.checkin.reverted");
        reveal_strlit("pretix.event.deleted");
        reveal_strlit("pretix.event.item.");
        reveal_strlit("pretix.event.item.changed");
        reveal_strlit("pretix.event.live.activated");
        reveal_strlit("pretix.event.live.deactivated");
        reveal_strlit("pretix.event.order.");
        reveal_strlit("pretix.event.testmode.activated");
        reveal_strlit("pretix.event.testmode.deactivated");
        reveal_strlit("pretix.subevent.");
        reveal_strlit("pretix.voucher.");
        assert("pretix.event.item.changed"@.len() == 25);
        assert("pretix.event.checkin"@.len() == 20);
        assert("pretix.event.checkin.reverted"@.len() == 29);
        assert("pretix.event.order."@.len() == 19);
        assert("pretix.event.item.changed"@.subrange(0, 19)[13] != "pretix.event.order."@[13]);
        assert("pretix.event.added"@.len() == 18);
        assert("pretix.event.changed"@.len() == 20);
        assert("pretix.event.deleted"@.len() == 20);
        assert("pretix.event.live.activated"@.len() == 27);
        assert("pretix.event.live.deactivated"@.len() == 29);
        assert("pretix.event.testmode.activated"@.len() == 31);
        assert("pretix.event.testmode.deactivated"@.len() == 33);
        assert("pretix.voucher."@.len() == 15);
        assert("pretix.event.item.changed"@.subrange(0, 15)[7] != "pretix.voucher."@[7]);
        assert("pretix.subevent."@.len() == 16);
        assert("pretix.event.item.changed"@.subrange(0, 16)[7] != "pretix.subevent."@[7]);
        assert("pretix.event.item."@.len() == 18);
        assert("pretix.event.item.changed"@.subrange(0, 18) =~= "pretix.event.item."@);
    }
    assert(action_kind("pretix.event.quota.added"@) == WebhookEventKind::Item) by {
        reveal_strlit("pretix.event.added");
        reveal_strlit("pretix.event.changed");
        reveal_strlit("pretix.event.checkin");
        reveal_strlit("pretix.event.checkin.reverted");
        reveal_strlit("pretix.event.deleted");
        reveal_strlit("pretix.event.item.");
        reveal_strlit("pretix.event.live.activated");
        reveal_strlit("pretix.event.live.deactivated");
        reveal_strlit("pretix.event.order.");
        reveal_strlit("pretix.event.quota.");
        reveal_strlit("pretix.event.quota.added");
        reveal_strlit("pretix.event.testmode.activated");
        reveal_strlit("pretix.event.testmode.deactivated");
        reveal_strlit("pretix.subevent.");
        reveal_strlit("pretix.voucher.");
        assert("pretix.event.quota.added"@.len() == 24);
        assert("pretix.event.checkin"@.len() == 20);
        assert("pretix.event.checkin.reverted"@.len() == 29);
        assert("pretix.event.order."@.len() == 19);
        assert("pretix.event.quota.added"@.subrange(0, 19)[13] != "pretix.event.order."@[13]);
        assert("pretix.event.added"@.len() == 18);
        assert("pretix.event.changed"@.len() == 20);
        assert("pretix.event.deleted"@.len() == 20);
        assert("pretix.event.live.activated"@.len() == 27);
        assert("pretix.event.live.deactivated"@.len() == 29);
        assert("pretix.event.testmode.activated"@.len() == 31);
        assert("pretix.event.testmode.deactivated"@.len() == 33);
        assert("pretix.voucher."@.len() == 15);
        assert("pretix.event.quota.added"@.subrange(0, 15)[7] != "pretix.voucher."@[7]);
        assert("pretix.subevent."@.len() == 16);
        assert("pretix.event.quota.added"@.subrange(0, 16)[7] != "pretix.subevent."@[7]);
        assert("pretix.event.item."@.len() == 18);
        assert("pretix.event.quota.added"@.subrange(0, 18)[13] != "pretix.event.item."@[13]);
        assert("pretix.event.quota."@.len() == 19);
        assert("pretix.event.quota.added"@.subrange(0, 19) =~= "pretix.event.quota."@);
    }
    assert(action_kind("pretix.event.orders.waitinglist.added"@) == WebhookEventKind::WaitingList) by {
        reveal_strlit("pretix.event.added");
        reveal_strlit("pretix.event.changed");
        reveal_strlit("pretix.event.checkin");
        reveal_strlit("pretix.event.checkin.reverted");
        reveal_strlit("pretix.event.deleted");
        reveal_strlit("pretix.event.item.");
        reveal_strlit("pretix.event.live.activated");
        reveal_strlit("pretix.event.live.deactivated");
        reveal_strlit("pretix.event.order.");
        reveal_strlit("pretix.event.orders.waitinglist.");
        reveal_strlit("pretix.event.orders.waitinglist.added");
        reveal_strlit("pretix.event.quota.");
        reveal_strlit("pretix.event.testmode.activated");
        reveal_strlit("pretix.event.testmode.deactivated");
        reveal_strlit("pretix.subevent.");
        reveal_strlit("pretix.voucher.");
        assert("pretix.event.orders.waitinglist.added"@.len() == 37);
        assert("pretix.event.checkin"@.len() == 20);
        assert("pretix.event.checkin.reverted"@.len() == 29);
        assert("pretix.event.order."@.len() == 19);
        assert("pretix.event.orders.waitinglist.added"@.subrange(0, 19)[18] != "pretix.event.order."@[18]);
        assert("pretix.event.added"@.len() == 18);
        assert("pretix.event.changed"@.len() == 20);
        assert("pretix.event.deleted"@.len() == 20);
        assert("pretix.event.live.activated"@.len() == 27);
        assert("pretix.event.live.deactivated"@.len() == 29);
        assert("pretix.event.testmode.activated"@.len() == 31);
        assert("pretix.event.testmode.deactivated"@.len() == 33);
        assert("pretix.voucher."@.len() == 15);
        assert("pretix.event.orders.waitinglist.added"@.subrange(0, 15)[7] != "pretix.voucher."@[7]);
        assert("pretix.subevent."@.len() == 16);
        assert("pretix.event.orders.waitinglist.added"@.subrange(0, 16)[7] != "pretix.subevent."@[7]);
        assert("pretix.event.item."@.len() == 18);
        assert("pretix.event.orders.waitinglist.added"@.subrange(0, 18)[13] != "pretix.event.item."@[13]);
        assert("pretix.event.quota."@.len() == 19);
        assert("pretix.event.orders.waitinglist.added"@.subrange(0, 19)[13] != "pretix.event.quota."@[13]);
        assert("pretix.event.orders.waitinglist."@.len() == 32);
        assert("pretix.event.orders.waitinglist.added"@.subrange(0, 32) =~= "pretix.event.orders.waitinglist."@);
    }
    assert(action_kind("pretix.customer.created"@) == WebhookEventKind::Customer) by {
        reveal_strlit("pretix.customer.");
        reveal_strlit("pretix.customer.created");
        reveal_strlit("pretix.event.added");
        reveal_strlit("pretix.event.changed");
        reveal_strlit("pretix.event.checkin");
        reveal_strlit("pretix.event.checkin.reverted");
        reveal_strlit("pretix.event.deleted");
        reveal_strlit("pretix.event.item.");
        reveal_strlit("pretix.event.live.activated");
        reveal_strlit("pretix.event.live.deactivated");
        reveal_strlit("pretix.event.order.");
        reveal_strlit("pretix.event.orders.waitinglist.");
        reveal_strlit("pretix.event.quota.");
        reveal_strlit("pretix.event.testmode.activated");
        reveal_strlit("pretix.event.testmode.deactivated");
        reveal_strlit("pretix.subevent.");
        reveal_strlit("pretix.voucher.");
        assert("pretix.customer.created"@.len() == 23);
        assert("pretix.event.checkin"@.len() == 20);
        assert("pretix.event.checkin.reverted"@.len() == 29);
        assert("pretix.event.order."@.len() == 19);
        assert("pretix.customer.created"@.subrange(0, 19)[7] != "pretix.event.order."@[7]);
        assert("pretix.event.added"@.len() == 18);
        assert("pretix.event.changed"@.len() == 20);
        assert("pretix.event.deleted"@.len() == 20);
        assert("pretix.event.live.activated"@.len() == 27);
        assert("pretix.event.live.deactivated"@.len() == 29);
        assert("pretix.event.testmode.activated"@.len() == 31);
        assert("pretix.event.testmode.deactivated"@.len() == 33);
        assert("pretix.voucher."@.len() == 15);
        assert("pretix.customer.created"@.subrange(0, 15)[7] != "pretix.voucher."@[7]);
        assert("pretix.subevent."@.len() == 16);
        assert("pretix.customer.created"@.subrange(0, 16)[7] != "pretix.subevent."@[7]);
        assert("pretix.event.item."@.len() == 18);
        assert("pretix.customer.created"@.subrange(0, 18)[7] != "pretix.event.item."@[7]);
        assert("pretix.event.quota."@.len() == 19);
        assert("pretix.customer.created"@.subrange(0, 19)[7] != "pretix.event.quota."@[7]);
        assert("pretix.event.orders.waitinglist."@.len() == 32);
        assert("pretix.customer."@.len() == 16);
        assert("pretix.customer.created"@.subrange(0, 16) =~= "pretix.customer."@);
    }
    assert(action_kind("pretix.giftcards.created"@) == WebhookEventKind::GiftCard) by {
        reveal_strlit("pretix.customer.");
        reveal_strlit("pretix.event.added");
        reveal_strlit("pretix.event.changed");
        reveal_strlit("pretix.event.checkin");
        reveal_strlit("pretix.event.checkin.reverted");
        reveal_strlit("pretix.event.deleted");
        reveal_strlit("pretix.event.item.");
        reveal_strlit("pretix.event.live.activated");
        reveal_strlit("pretix.event.live.deactivated");
        reveal_strlit("pretix.event.order.");
        reveal_strlit("pretix.event.orders.waitinglist.");
        reveal_strlit("pretix.event.quota.");
        reveal_strlit("pretix.event.testmode.activated");
        reveal_strlit("pretix.event.testmode.deactivated");
        reveal_strlit("pretix.giftcards.");
        reveal_strlit("pretix.giftcards.created");
        reveal_strlit("pretix.giftcards.transaction.");
        reveal_strlit("pretix.subevent.");
        reveal_strlit("pretix.voucher.");
        assert("pretix.giftcards.created"@.len() == 24);
        assert("pretix.event.checkin"@.len() == 20);
        assert("pretix.event.checkin.reverted"@.len() == 29);
        assert("pretix.event.order."@.len() == 19);
        assert("pretix.giftcards.created"@.subrange(0, 19)[7] != "pretix.event.order."@[7]);
        assert("pretix.event.added"@.len() == 18);
        assert("pretix.event.changed"@.len() == 20);
        assert("pretix.event.deleted"@.len() == 20);
        assert("pretix.event.live.activated"@.len() == 27);
        assert("pretix.event.live.deactivated"@.len() == 29);
        assert("pretix.event.testmode.activated"@.len() == 31);
        assert("pretix.event.testmode.deactivated"@.len() == 33);
        assert("pretix.voucher."@.len() == 15);
        assert("pretix.giftcards.created"@.subrange(0, 15)[7] != "pretix.voucher."@[7]);
        assert("pretix.subevent."@.len() == 16);
        assert("pretix.giftcards.created"@.subrange(0, 16)[7] != "pretix.subevent."@[7]);
        assert("pretix.event.item."@.len() == 18);
        assert("pretix.giftcards.created"@.subrange(0, 18)[7] != "pretix.event.item."@[7]);
        assert("pretix.event.quota."@.len() == 19);
        assert("pretix.giftcards.created"@.subrange(0, 19)[7] != "pretix.event.quota."@[7]);
        assert("pretix.event.orders.waitinglist."@.len() == 32);
        assert("pretix.customer."@.len() == 16);
        assert("pretix.giftcards.created"@.subrange(0, 16)[7] != "pretix.customer."@[7]);
        assert("pretix.giftcards.transaction."@.len() == 29);
        assert("pretix.giftcards."@.len() == 17);
        assert("pretix.giftcards.created"@.subrange(0, 17) =~= "pretix.giftcards."@);
    }
    assert(action_kind("pretix.giftcards.transaction.redeemed"@) == WebhookEventKind::GiftCardTransaction) by {
        reveal_strlit("pretix.customer.");
        reveal_strlit("pretix.event.added");
        reveal_strlit("pretix.event.changed");
        reveal_strlit("pretix.event.checkin");
        reveal_strlit("pretix.event.checkin.reverted");
        reveal_strlit("pretix.event.deleted");
        reveal_strlit("pretix.event.item.");
        reveal_strlit("pretix.event.live.activated");
        reveal_strlit("pretix.event.live.deactivated");
        reveal_strlit("pretix.event.order.");
        reveal_strlit("pretix.event.orders.waitinglist.");
        reveal_strlit("pretix.event.quota.");
        reveal_strlit("pretix.event.testmode.activated");
        reveal_strlit("pretix.event.testmode.deactivated");
        reveal_strlit("pretix.giftcards.transaction.");
        reveal_strlit("pretix.giftcards.transaction.redeemed");
        reveal_strlit("pretix.subevent.");
        reveal_strlit("pretix.voucher.");
        assert("pretix.giftcards.transaction.redeemed"@.len() == 37);
        assert("pretix.event.checkin"@.len() == 20);
        assert("pretix.event.checkin.reverted"@.len() == 29);
        assert("pretix.event.order."@.len() == 19);
        assert("pretix.giftcards.transaction.redeemed"@.subrange(0, 19)[7] != "pretix.event.order."@[7]);
        assert("pretix.event.added"@.len() == 18);
        assert("pretix.event.changed"@.len() == 20);
        assert("pretix.event.deleted"@.len() == 20);
        assert("pretix.event.live.activated"@.len() == 27);
        assert("pretix.event.live.deactivated"@.len() == 29);
        assert("pretix.event.testmode.activated"@.len() == 31);
        assert("pretix.event.testmode.deactivated"@.len() == 33);
        assert("pretix.voucher."@.len() == 15);
        assert("pretix.giftcards.transaction.redeemed"@.subrange(0, 15)[7] != "pretix.voucher."@[7]);
        assert("pretix.subevent."@.len() == 16);
        assert("pretix.giftcards.transaction.redeemed"@.subrange(0, 16)[7] != "pretix.subevent."@[7]);
        assert("pretix.event.item."@.len() == 18);
        assert("pretix.giftcards.transaction.redeemed"@.subrange(0, 18)[7] != "pretix.event.item."@[7]);
        assert("pretix.event.quota."@.len() == 19);
        assert("pretix.giftcards.transaction.redeemed"@.subrange(0, 19)[7] != "pretix.event.quota."@[7]);
        assert("pretix.event.orders.waitinglist."@.len() == 32);
        assert("pretix.giftcards.transaction.redeemed"@.subrange(0, 32)[7] != "pretix.event.orders.waitinglist."@[7]);
        assert("pretix.customer."@.len() == 16);
        assert("pretix.giftcards.transaction.redeemed"@.subrange(0, 16)[7] != "pretix.customer."@[7]);
        assert("pretix.giftcards.transaction."@.len() == 29);
        assert("pretix.giftcards.transaction.redeemed"@.subrange(0, 29) =~= "pretix.giftcards.transaction."@);
    }
    assert(action_kind("pretix.plugin.badge.printed"@) == WebhookEventKind::Unknown) by {
        reveal_strlit("pretix.customer.");
        reveal_strlit("pretix.event.added");
        reveal_strlit("pretix.event.changed");
        reveal_strlit("pretix.event.checkin");
        reveal_strlit("pretix.event.checkin.reverted");
        reveal_strlit("pretix.event.deleted");
        reveal_strlit("pretix.event.item.");
        reveal_strlit("pretix.event.live.activated");
        reveal_strlit("pretix.event.live.deactivated");
        reveal_strlit("pretix.event.order.");
        reveal_strlit("pretix.event.orders.waitinglist.");
        reveal_strlit("pretix.event.quota.");
        reveal_strlit("pretix.event.testmode.activated");
        reveal_strlit("pretix.event.testmode.deactivated");
        reveal_strlit("pretix.giftcards.");
        reveal_strlit("pretix.giftcards.transaction.");
        reveal_strlit("pretix.plugin.badge.printed");
        reveal_strlit("pretix.subevent.");
        reveal_strlit("pretix.voucher.");
        assert("pretix.plugin.badge.printed"@.len() == 27);
        assert("pretix.event.checkin"@.len() == 20);
        assert("pretix.event.checkin.reverted"@.len() == 29);
        assert("pretix.event.order."@.len() == 19);
        assert("pretix.plugin.badge.printed"@.subrange(0, 19)[7] != "pretix.event.order."@[7]);
        assert("pretix.event.added"@.len() == 18);
        assert("pretix.event.changed"@.len() == 20);
        assert("pretix.event.deleted"@.len() == 20);
        assert("pretix.event.live.activated"@.len() == 27);
        assert("pretix.plugin.badge.printed"@[7] != "pretix.event.live.activated"@[7]);
        assert("pretix.event.live.deactivated"@.len() == 29);
        assert("pretix.event.testmode.activated"@.len() == 31);
        assert("pretix.event.testmode.deactivated"@.len() == 33);
        assert("pretix.voucher."@.len() == 15);
        assert("pretix.plugin.badge.printed"@.subrange(0, 15)[7] != "pretix.voucher."@[7]);
        assert("pretix.subevent."@.len() == 16);
        assert("pretix.plugin.badge.printed"@.subrange(0, 16)[7] != "pretix.subevent."@[7]);
        assert("pretix.event.item."@.len() == 18);
        assert("pretix.plugin.badge.printed"@.subrange(0, 18)[7] != "pretix.event.item."@[7]);
        assert("pretix.event.quota."@.len() == 19);
        assert("pretix.plugin.badge.printed"@.subrange(0, 19)[7] != "pretix.event.quota."@[7]);
        assert("pretix.event.orders.waitinglist."@.len() == 32);
        assert("pretix.customer."@.len() == 16);
        assert("pretix.plugin.badge.printed"@.subrange(0, 16)[7] != "pretix.customer."@[7]);
        assert("pretix.giftcards.transaction."@.len() == 29);
        assert("pretix.giftcards."@.len() == 17);
        assert("pretix.plugin.badge.printed"@.subrange(0, 17)[7] != "pretix.giftcards."@[7]);
    }
    assert(action_kind("pretix.event.reordered"@) == WebhookEventKind::Unknown) by {
        reveal_strlit("pretix.customer.");
        reveal_strlit("pretix.event.added");
        reveal_strlit("pretix.event.changed");
        reveal_strlit("pretix.event.checkin");
        reveal_strlit("pretix.event.checkin.reverted");
        reveal_strlit("pretix.event.deleted");
        reveal_strlit("pretix.event.item.");
        reveal_strlit("pretix.event.live.activated");
        reveal_strlit("pretix.event.live.deactivated");
        reveal_strlit("pretix.event.order.");
        reveal_strlit("pretix.event.orders.waitinglist.");
        reveal_strlit("pretix.event.quota.");
        reveal_strlit("pretix.event.reordered");
        reveal_strlit("pretix.event.testmode.activated");
        reveal_strlit("pretix.event.testmode.deactivated");
        reveal_strlit("pretix.giftcards.");
        reveal_strlit("pretix.giftcards.transaction.");
        reveal_strlit("pretix.subevent.");
        reveal_strlit("pretix.voucher.");
        assert("pretix.event.reordered"@.len() == 22);
        assert("pretix.event.checkin"@.len() == 20);
        assert("pretix.event.checkin.reverted"@.len() == 29);
        assert("pretix.event.order."@.len() == 19);
        assert("pretix.event.reordered"@.subrange(0, 19)[13] != "pretix.event.order."@[13]);
        assert("pretix.event.added"@.len() == 18);
        assert("pretix.event.changed"@.len() == 20);
        assert("pretix.event.deleted"@.len() == 20);
        assert("pretix.event.live.activated"@.len() == 27);
        assert("pretix.event.live.deactivated"@.len() == 29);
        assert("pretix.event.testmode.activated"@.len() == 31);
        assert("pretix.event.testmode.deactivated"@.len() == 33);
        assert("pretix.voucher."@.len() == 15);
        assert("pretix.event.reordered"@.subrange(0, 15)[7] != "pretix.voucher."@[7]);
        assert("pretix.subevent."@.len() == 16);
        assert("pretix.event.reordered"@.subrange(0, 16)[7] != "pretix.subevent."@[7]);
        assert("pretix.event.item."@.len() == 18);
        assert("pretix.event.reordered"@.subrange(0, 18)[13] != "pretix.event.item."@[13]);
        assert("pretix.event.quota."@.len() == 19);
        assert("pretix.event.reordered"@.subrange(0, 19)[13] != "pretix.event.quota."@[13]);
        assert("pretix.event.orders.waitinglist."@.len() == 32);
        assert("pretix.customer."@.len() == 16);
        assert("pretix.event.reordered"@.subrange(0, 16)[7] != "pretix.customer."@[7]);
        assert("pretix.giftcards.transaction."@.len() == 29);
        assert("pretix.giftcards."@.len() == 17);
        assert("pretix.event.reordered"@.subrange(0, 17)[7] != "pretix.giftcards."@[7]);
    }
}

/// A string that starts with `p` neither starts with nor equals a text `q`
/// that differs from `p` at a position both of them have.
proof fn lemma_prefix_excludes(a: Seq<char>, p: Seq<char>, q: Seq<char>, i: int)
    requires
        has_prefix(a, p),
        0 <= i < p.len(),
        i < q.len(),
        p[i] != q[i],
    ensures
        !has_prefix(a, q),
        a != q,
{
    assert(a.subrange(0, p.len() as int)[i] == a[i]);
    if has_prefix(a, q) {
        assert(a.subrange(0, q.len() as int)[i] == a[i]);
    }
}

/// Every action is sorted into a family by its text alone: check-in and event
/// by their exact documented actions; order, voucher, sub-event, item or
/// quota, waiting list, customer, gift-card transaction and gift card (for
/// gift-card actions that are not transactions) exactly when the action starts
/// with that family's prefix.
pub proof fn lemma_prefix_families(a: Seq<char>)
    ensures
        action_kind(a) == WebhookEventKind::Checkin <==> (a == "pretix.event.checkin"@ || a
            == "pretix.event.checkin.reverted"@),
        action_kind(a) == WebhookEventKind::Event <==> (a == "pretix.event.added"@ || a
            == "pretix.event.changed"@ || a == "pretix.event.deleted"@ || a
            == "pretix.event.live.activated"@ || a == "pretix.event.live.deactivated"@ || a
            == "pretix.event.testmode.activated"@ || a == "pretix.event.testmode.deactivated"@),
        action_kind(a) == WebhookEventKind::Order <==> has_prefix(a, "pretix.event.order."@),
        action_kind(a) == WebhookEventKind::Voucher <==> has_prefix(a, "pretix.voucher."@),
        action_kind(a) == WebhookEventKind::Subevent <==> has_prefix(a, "pretix.subevent."@),
        action_kind(a) == WebhookEventKind::Item <==> (has_prefix(a, "pretix.event.item."@)
            || has_prefix(a, "pretix.event.quota."@)),
        action_kind(a) == WebhookEventKind::WaitingList <==> has_prefix(
            a,
            "pretix.event.orders.waitinglist."@,
        ),
        action_kind(a) == WebhookEventKind::Customer <==> has_prefix(a, "pretix.customer."@),
        action_kind(a) == WebhookEventKind::GiftCardTransaction <==> has_prefix(
            a,
            "pretix.giftcards.transaction."@,
        ),
        action_kind(a) == WebhookEventKind::GiftCard <==> (has_prefix(a, "pretix.giftcards."@)
            && !has_prefix(a, "pretix.giftcards.transaction."@)),
{
    lemma_exact_core_actions();
    reveal_strlit("pretix.event.checkin");
    reveal_strlit("pretix.event.checkin.reverted");
    reveal_strlit("pretix.event.order.");
    reveal_strlit("pretix.event.added");
    reveal_strlit("pretix.event.changed");
    reveal_strlit("pretix.event.deleted");
    reveal_strlit("pretix.event.live.activated");
    reveal_strlit("pretix.event.live.deactivated");
    reveal_strlit("pretix.event.testmode.activated");
    reveal_strlit("pretix.event.testmode.deactivated");
    reveal_strlit("pretix.voucher.");
    reveal_strlit("pretix.subevent.");
    reveal_strlit("pretix.event.item.");
    reveal_strlit("pretix.event.quota.");
    reveal_strlit("pretix.event.orders.waitinglist.");
    reveal_strlit("pretix.customer.");
    reveal_strlit("pretix.giftcards.transaction.");
    reveal_strlit("pretix.giftcards.");
    let checkin = "pretix.event.checkin"@;
    let reverted = "pretix.event.checkin.reverted"@;
    let order = "pretix.event.order."@;
    let added = "pretix.event.added"@;
    let changed = "pretix.event.changed"@;
    let deleted = "pretix.event.deleted"@;
    let live_on = "pretix.event.live.activated"@;
    let live_off = "pretix.event.live.deactivated"@;
    let test_on = "pretix.event.testmode.activated"@;
    let test_off = "pretix.event.testmode.deactivated"@;
    let voucher = "pretix.voucher."@;
    let subevent = "pretix.subevent."@;
    let item = "pretix.event.item."@;
    let quota = "pretix.event.quota."@;
    let waiting = "pretix.event.orders.waitinglist."@;
    let customer = "pretix.customer."@;
    let transaction = "pretix.giftcards.transaction."@;
    let giftcards = "pretix.giftcards."@;
    assert(checkin.len() == 20 && reverted.len() == 29 && order.len() == 19);
    assert(added.len() == 18 && changed.len() == 20 && deleted.len() == 20);
    assert(live_on.len() == 27 && live_off.len() == 29);
    assert(test_on.len() == 31 && test_off.len() == 33);
    assert(voucher.len() == 15 && subevent.len() == 16 && item.len() == 18);
    assert(quota.len() == 19 && waiting.len() == 32 && customer.len() == 16);
    assert(transaction.len() == 29 && giftcards.len() == 17);
    // The event-level texts all begin with "pretix.event." and part at
    // position 13; the other families part from them at position 7.
    if has_prefix(a, order) {
        lemma_prefix_excludes(a, order, checkin, 13);
        lemma_prefix_excludes(a, order, reverted, 13);
    }
    if has_prefix(a, voucher) || has_prefix(a, subevent) || has_prefix(a, customer) || has_prefix(
        a,
        transaction,
    ) || has_prefix(a, giftcards) {
        let p = if has_prefix(a, voucher) {
            voucher
        } else if has_prefix(a, subevent) {
            subevent
        } else if has_prefix(a, customer) {
            customer
        } else if has_prefix(a, transaction) {
            transaction
        } else {
            giftcards
        };
        lemma_prefix_excludes(a, p, checkin, 7);
        lemma_prefix_excludes(a, p, reverted, 7);
        lemma_prefix_excludes(a, p, order, 7);
        lemma_prefix_excludes(a, p, added, 7);
        lemma_prefix_excludes(a, p, changed, 7);
        lemma_prefix_excludes(a, p, deleted, 7);
        lemma_prefix_excludes(a, p, live_on, 7);
        lemma_prefix_excludes(a, p, live_off, 7);
        lemma_prefix_excludes(a, p, test_on, 7);
        lemma_prefix_excludes(a, p, test_off, 7);
        lemma_prefix_excludes(a, p, item, 7);
        lemma_prefix_excludes(a, p, quota, 7);
        lemma_prefix_excludes(a, p, waiting, 7);
        if p != voucher {
            lemma_prefix_excludes(a, p, voucher, 7);
        }
        if p != subevent {
            lemma_prefix_excludes(a, p, subevent, 7);
        }
        if p != customer {
            lemma_prefix_excludes(a, p, customer, 7);
        }
        if p != transaction && p != giftcards {
            lemma_prefix_excludes(a, p, transaction, 7);
            lemma_prefix_excludes(a, p, giftcards, 7);
        }
    }
    if has_prefix(a, item) || has_prefix(a, quota) || has_prefix(a, waiting) {
        let p = if has_prefix(a, item) {
            item
        } else if has_prefix(a, quota) {
            quota
        } else {
            waiting
        };
        lemma_prefix_excludes(a, p, checkin, 13);
        lemma_prefix_excludes(a, p, reverted, 13);
        lemma_prefix_excludes(a, p, added, 13);
        lemma_prefix_excludes(a, p, changed, 13);
        lemma_prefix_excludes(a, p, deleted, 13);
        lemma_prefix_excludes(a, p, live_on, 13);
        lemma_prefix_excludes(a, p, live_off, 13);
        lemma_prefix_excludes(a, p, test_on, 13);
        lemma_prefix_excludes(a, p, test_off, 13);
        lemma_prefix_excludes(a, p, voucher, 7);
        lemma_prefix_excludes(a, p, subevent, 7);
        if p == waiting {
            lemma_prefix_excludes(a, p, order, 18);
            lemma_prefix_excludes(a, p, item, 13);
            lemma_prefix_excludes(a, p, quota, 13);
        } else {
            lemma_prefix_excludes(a, p, order, 13);
            lemma_prefix_excludes(a, p, waiting, 13);
        }
    }
}

} // verus!
