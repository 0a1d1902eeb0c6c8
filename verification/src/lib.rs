//! Receiving pretix webhooks: the static path grammar for webhook routes,
//! typed payloads read from the webhook JSON body, organizer and event
//! filters, HTTP Basic authentication and the response each request gets.
pub mod auth;
pub mod builder;
pub mod config;
pub mod endpoint;
pub mod events;
pub mod json;
pub mod path;
pub mod service;
pub mod startup;
pub mod text;

pub use auth::BasicAuthCredential;
pub use config::WebhookConfig;
pub use endpoint::{
    multi_endpoints, multi_mode, parse_credential, parse_path, resolve_settings, semicolon_list,
    simple_endpoint, simple_mode, AllowedTarget, CommandLineSettings, CredentialReference,
    EffectiveEndpoint, EndpointError, EnvironmentValue, ResolvedSettings, SimpleModeInputs,
    WebhookEntry,
};
pub use builder::{WebhookFilterError, WebhookServiceBuilder, DEFAULT_BODY_LIMIT};
pub use events::{
    CheckinEvent, CustomerEvent, EventEvent, GiftCardEvent, GiftCardTransactionEvent, ItemEvent,
    Notification, OrderEvent, PayloadError, ResourceId, SubeventEvent, UnknownEvent, VoucherEvent,
    WaitingListEvent, WebhookEvent, WebhookEventKind,
};
pub use json::JsonValue;
pub use path::{
    resolve_webhook_path, validate_absolute_webhook_path, validate_relative_webhook_path,
    validate_webhook_prefix, WebhookPathError, WebhookPathSet,
};
pub use service::{Admission, BodyRead, WebhookService, WebhookStatus};
pub use startup::{startup_notices, StartupNotice};
