//! The decisions a webhook service takes for one request: which requests
//! reach the event handler, and which status every request is answered with.
use vstd::prelude::*;

use crate::auth::credentials_accept;
use crate::builder::{policy_allows, PolicyView, WebhookServiceBuilder};
use crate::events::{reads_json_payload, PayloadError, WebhookEvent};

verus! {

/// The `WWW-Authenticate` challenge sent with `401 Unauthorized`.
pub const BASIC_CHALLENGE: &'static str = "Basic realm=\"pretix-webhook\"";

/// The status of a webhook response (the body is always empty).
#[derive(Clone, Copy, Debug, PartialEq, Eq, Structural)]
pub enum WebhookStatus {
    /// `204 No Content`: the handler succeeded.
    NoContent,
    /// `400 Bad Request`: the body could not be read or is not a valid payload.
    BadRequest,
    /// `401 Unauthorized`: HTTP Basic authentication failed.
    Unauthorized,
    /// `404 Not Found`: the event did not pass the configured filters.
    NotFound,
    /// `413 Payload Too Large`: the body exceeded the configured limit.
    PayloadTooLarge,
    /// `500 Internal Server Error`: the handler failed, so pretix retries.
    InternalServerError,
}

impl WebhookStatus {
    /// The HTTP status code.
    pub open spec fn spec_code(self) -> u16 {
        match self {
            WebhookStatus::NoContent => 204,
            WebhookStatus::BadRequest => 400,
            WebhookStatus::Unauthorized => 401,
            WebhookStatus::NotFound => 404,
            WebhookStatus::PayloadTooLarge => 413,
            WebhookStatus::InternalServerError => 500,
        }
    }

    /// The HTTP status code.
    pub fn code(&self) -> (res: u16)
        ensures
            res == self.spec_code(),
    {
        match self {
            WebhookStatus::NoContent => 204,
            WebhookStatus::BadRequest => 400,
            WebhookStatus::Unauthorized => 401,
            WebhookStatus::NotFound => 404,
            WebhookStatus::PayloadTooLarge => 413,
            WebhookStatus::InternalServerError => 500,
        }
    }

    /// The `WWW-Authenticate` header the response carries, if any.
    pub fn challenge(&self) -> (res: Option<&'static str>)
        ensures
            res is Some <==> *self == WebhookStatus::Unauthorized,
            res matches Some(c) ==> c@ == BASIC_CHALLENGE@,
    {
        match self {
            WebhookStatus::Unauthorized => Some(BASIC_CHALLENGE),
            _ => None,
        }
    }
}

/// How reading the request body under the configured limit ended.
pub enum BodyRead {
    /// The whole body, within the limit.
    Complete(Vec<u8>),
    /// The body exceeded the limit.
    TooLarge,
    /// The body stream failed.
    Failed,
}

/// What becomes of a request before the handler runs.
#[derive(Debug)]
pub enum Admission {
    /// The request is answered at once with this status.
    Reject(WebhookStatus),
    /// The event goes to the handler.
    Dispatch(WebhookEvent),
}

/// `res` is what a request with this body and `Authorization` header gets
/// under policy `p`: an oversized body is refused with 413 and a failed body
/// with 400 before anything else; then authentication is checked before the
/// payload is read (401); a body that is not a valid payload gets 400; an
/// event that fails the filters gets 404; any other event is dispatched.
pub open spec fn admits(p: PolicyView, body: BodyRead, authorization: Option<Seq<char>>, res: Admission) -> bool {
    match body {
        BodyRead::TooLarge => res == Admission::Reject(WebhookStatus::PayloadTooLarge),
        BodyRead::Failed => res == Admission::Reject(WebhookStatus::BadRequest),
        BodyRead::Complete(bytes) => if !credentials_accept(p.credentials, authorization) {
            res == Admission::Reject(WebhookStatus::Unauthorized)
        } else {
            exists|r: Result<WebhookEvent, PayloadError>|
                #![trigger reads_json_payload(bytes@, r)]
                reads_json_payload(bytes@, r) && match r {
                    Err(_) => res == Admission::Reject(WebhookStatus::BadRequest),
                    Ok(e) => if policy_allows(p, e) {
                        res == Admission::Dispatch(e)
                    } else {
                        res == Admission::Reject(WebhookStatus::NotFound)
                    },
                }
        },
    }
}

/// The status once the handler has run: success is `204`, failure `500`.
pub open spec fn handled_status(ok: bool) -> WebhookStatus {
    if ok {
        WebhookStatus::NoContent
    } else {
        WebhookStatus::InternalServerError
    }
}

/// An HTTP service that authenticates and processes pretix webhooks.
///
/// Routing and HTTP method selection belong to the caller. The handler
/// receives only authenticated, parsed events that pass the configured filters.
pub struct WebhookService<H> {
    handler: H,
    policy: WebhookServiceBuilder,
}

impl<H> WebhookService<H> {
    /// The event handler.
    pub closed spec fn spec_handler(&self) -> H {
        self.handler
    }

    /// The policy the service applies.
    pub closed spec fn spec_policy(&self) -> PolicyView {
        self.policy@
    }

    /// Wraps a handler with a policy.
    pub fn new(handler: H, policy: WebhookServiceBuilder) -> (res: Self)
        ensures
            res.spec_handler() == handler,
            res.spec_policy() == policy@,
    {
        WebhookService { handler, policy }
    }

    /// Borrows the event handler.
    pub fn handler(&self) -> (res: &H)
        ensures
            *res == self.spec_handler(),
    {
        &self.handler
    }

    /// Borrows the policy.
    pub fn policy(&self) -> (res: &WebhookServiceBuilder)
        ensures
            res@ == self.spec_policy(),
    {
        &self.policy
    }

    /// The maximum request body size in bytes.
    pub fn body_limit(&self) -> (res: usize)
        ensures
            res == self.spec_policy().body_limit,
    {
        self.policy.body_limit_bytes()
    }

    /// Decides what becomes of a request before the handler runs.
    pub fn decide(&self, body: BodyRead, authorization: Option<&str>) -> (res: Admission)
        ensures
            admits(
                self.spec_policy(),
                body,
                match authorization {
                    Some(h) => Some(h@),
                    None => None,
                },
                res,
            ),
    {
        let ghost b = body;
        match body {
            BodyRead::TooLarge => Admission::Reject(WebhookStatus::PayloadTooLarge),
            BodyRead::Failed => Admission::Reject(WebhookStatus::BadRequest),
            BodyRead::Complete(bytes) => {
                if !self.policy.authenticates(authorization) {
                    return Admission::Reject(WebhookStatus::Unauthorized);
                }
                let parsed = WebhookEvent::from_json(bytes.as_slice());
                let ghost r = parsed;
                match parsed {
                    Err(_) => {
                        assert(reads_json_payload(bytes@, r));
                        Admission::Reject(WebhookStatus::BadRequest)
                    },
                    Ok(event) => {
                        assert(reads_json_payload(bytes@, r));
                        if self.policy.allows(&event) {
                            Admission::Dispatch(event)
                        } else {
                            Admission::Reject(WebhookStatus::NotFound)
                        }
                    },
                }
            },
        }
    }

    /// The status once the handler has run.
    pub fn handled(&self, ok: bool) -> (res: WebhookStatus)
        ensures
            res == handled_status(ok),
    {
        if ok {
            WebhookStatus::NoContent
        } else {
            WebhookStatus::InternalServerError
        }
    }
}

/// Authentication is checked before the payload is read: a complete body
/// that fails authentication is answered with 401, whatever it holds.
pub proof fn lemma_unauthenticated_is_refused(
    p: PolicyView,
    bytes: Vec<u8>,
    authorization: Option<Seq<char>>,
    res: Admission,
)
    requires
        admits(p, BodyRead::Complete(bytes), authorization, res),
        !credentials_accept(p.credentials, authorization),
    ensures
        res == Admission::Reject(WebhookStatus::Unauthorized),
{
}

/// The handler receives only authenticated, parsed events that pass the
/// filters.
pub proof fn lemma_dispatched_events_are_admitted(
    p: PolicyView,
    body: BodyRead,
    authorization: Option<Seq<char>>,
    e: WebhookEvent,
)
    requires
        admits(p, body, authorization, Admission::Dispatch(e)),
    ensures
        body matches BodyRead::Complete(bytes) && credentials_accept(p.credentials, authorization)
            && reads_json_payload(bytes@, Ok(e)) && policy_allows(p, e),
{
    if let BodyRead::Complete(bytes) = body {
        if credentials_accept(p.credentials, authorization) {
            let r = choose|r: Result<WebhookEvent, PayloadError>|
                #![trigger reads_json_payload(bytes@, r)]
                reads_json_payload(bytes@, r) && match r {
                    Err(_) => Admission::Dispatch(e) == Admission::Reject(WebhookStatus::BadRequest),
                    Ok(e2) => if policy_allows(p, e2) {
                        Admission::Dispatch(e) == Admission::Dispatch(e2)
                    } else {
                        Admission::Dispatch(e) == Admission::Reject(WebhookStatus::NotFound)
                    },
                };
        }
    }
}

} // verus!
