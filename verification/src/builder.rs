//! The policy of one webhook endpoint: organizer and event filters, accepted
//! HTTP Basic credentials and the request body limit.
use vstd::prelude::*;
use vstd::string::*;

use crate::auth::{authenticate, credentials_accept, digests_of, BasicAuthCredential};
use crate::events::WebhookEvent;
use crate::service::WebhookService;
use crate::text::{contains_str, copy_strings, decimal, spec_decimal, string_views};

verus! {

/// The maximum request body size used by [`WebhookServiceBuilder::new`]: 2 MiB.
pub const DEFAULT_BODY_LIMIT: usize = 2 * 1024 * 1024;

/// A character with the Unicode `White_Space` property, the set that
/// `char::is_whitespace` and `str::trim` use.
pub open spec fn is_unicode_whitespace(c: char) -> bool {
    ('\u{9}' <= c && c <= '\u{d}') || c == ' ' || c == '\u{85}' || c == '\u{a0}' || c
        == '\u{1680}' || ('\u{2000}' <= c && c <= '\u{200a}') || c == '\u{2028}' || c
        == '\u{2029}' || c == '\u{202f}' || c == '\u{205f}' || c == '\u{3000}'
}

/// A filter value: non-empty and without leading or trailing whitespace
/// (so that `str::trim` leaves it unchanged).
pub open spec fn is_valid_filter_value(v: Seq<char>) -> bool {
    v.len() > 0 && !is_unicode_whitespace(v[0]) && !is_unicode_whitespace(v.last())
}

/// The message that rejects a filter value; it names the kind of slug but
/// never the value.
pub open spec fn filter_error_message(kind: Seq<char>, v: Seq<char>) -> Seq<char> {
    if v.len() == 0 {
        "invalid "@ + kind + " slug: it must not be empty"@
    } else {
        "invalid "@ + kind + " slug: leading and trailing whitespace are not allowed"@
    }
}

/// `s` with `x` added at the end unless it already holds `x`.
pub open spec fn insert_once(s: Seq<Seq<char>>, x: Seq<char>) -> Seq<Seq<char>> {
    if s.contains(x) {
        s
    } else {
        s.push(x)
    }
}

/// The slugs of `s`, each once, in the order first given: what allowing
/// them one by one leaves in a filter.
pub open spec fn distinct_in_order(s: Seq<Seq<char>>) -> Seq<Seq<char>>
    decreases s.len(),
{
    if s.len() == 0 {
        Seq::empty()
    } else {
        insert_once(distinct_in_order(s.drop_last()), s.last())
    }
}

/// Slugs that are already distinct are kept as they are.
pub proof fn lemma_distinct_in_order_of_distinct(s: Seq<Seq<char>>)
    requires
        s.no_duplicates(),
    ensures
        distinct_in_order(s) == s,
    decreases s.len(),
{
    if s.len() > 0 {
        let init = s.drop_last();
        assert(init.no_duplicates()) by {
            assert forall|i: int, j: int| 0 <= i < init.len() && 0 <= j < init.len() && i != j implies init[i] != init[j] by {
                assert(init[i] == s[i] && init[j] == s[j]);
            }
        }
        lemma_distinct_in_order_of_distinct(init);
        assert(!init.contains(s.last())) by {
            if init.contains(s.last()) {
                let k = choose|k: int| 0 <= k < init.len() && init[k] == s.last();
                assert(s[k] == s[s.len() - 1]);
            }
        }
        assert(init.push(s.last()) =~= s);
    }
}

/// The configured policy: the allowed organizer and event slugs (each once,
/// in the order first added), the accepted credential digests and the body
/// limit in bytes.
pub struct PolicyView {
    pub organizers: Seq<Seq<char>>,
    pub events: Seq<Seq<char>>,
    pub credentials: Seq<Seq<u8>>,
    pub body_limit: usize,
}

/// An empty filter leaves its dimension unrestricted; organizer-level
/// payloads consult only the organizer filter; a payload without a readable
/// slug fails an applicable filter. Matching is exact.
pub open spec fn policy_allows(p: PolicyView, e: WebhookEvent) -> bool {
    &&& (p.organizers.len() == 0 || (e.spec_organizer_slug() matches Some(o)
        && p.organizers.contains(o)))
    &&& (p.events.len() == 0 || !e.spec_is_event_level() || (e.spec_event_slug() matches Some(v)
        && p.events.contains(v)))
}

/// The text that [`WebhookServiceBuilder::debug_string`] renders: only the
/// sizes of the configured policy and the body limit.
pub open spec fn redacted_debug(p: PolicyView) -> Seq<char> {
    "WebhookServiceBuilder { organizers: <"@ + spec_decimal(p.organizers.len()) + " REDACTED>, events: <"@
        + spec_decimal(p.events.len()) + " REDACTED>, credentials: <"@ + spec_decimal(
        p.credentials.len(),
    ) + " REDACTED>, body_limit: "@ + spec_decimal(p.body_limit as nat) + " }"@
}

/// An invalid organizer or event filter value.
///
/// The rejected value is never included in the message so that diagnostics
/// can be reported without disclosing configured policy.
#[derive(Clone, Debug, PartialEq, Eq)]
pub struct WebhookFilterError {
    message: String,
}

impl View for WebhookFilterError {
    type V = Seq<char>;

    /// The error's message.
    closed spec fn view(&self) -> Seq<char> {
        self.message@
    }
}

impl WebhookFilterError {
    /// The error's message.
    pub fn message(&self) -> (res: &str)
        ensures
            res@ == self@,
    {
        self.message.as_str()
    }

    /// The error's message as an owned string.
    pub fn to_string(&self) -> (res: String)
        ensures
            res@ == self@,
    {
        self.message.clone()
    }
}

/// Reports whether `c` has the Unicode `White_Space` property.
fn is_whitespace(c: char) -> (res: bool)
    ensures
        res == is_unicode_whitespace(c),
{
    ('\u{9}' <= c && c <= '\u{d}') || c == ' ' || c == '\u{85}' || c == '\u{a0}' || c
        == '\u{1680}' || ('\u{2000}' <= c && c <= '\u{200a}') || c == '\u{2028}' || c
        == '\u{2029}' || c == '\u{202f}' || c == '\u{205f}' || c == '\u{3000}'
}

/// Accepts a filter value or explains, without quoting it, why it is rejected.
pub fn validate_filter(kind: &str, value: &str) -> (res: Result<(), WebhookFilterError>)
    ensures
        res is Ok <==> is_valid_filter_value(value@),
        res matches Err(e) ==> e@ == filter_error_message(kind@, value@),
{
    let n = value.unicode_len();
    if n == 0 {
        let mut message = String::from_str("invalid ");
        message.append(kind);
        message.append(" slug: it must not be empty");
        return Err(WebhookFilterError { message });
    }
    if is_whitespace(value.get_char(0)) || is_whitespace(value.get_char(n - 1)) {
        let mut message = String::from_str("invalid ");
        message.append(kind);
        message.append(" slug: leading and trailing whitespace are not allowed");
        return Err(WebhookFilterError { message });
    }
    Ok(())
}

/// Configures a [`WebhookService`].
pub struct WebhookServiceBuilder {
    organizers: Vec<String>,
    events: Vec<String>,
    credentials: Vec<BasicAuthCredential>,
    body_limit: usize,
}

impl View for WebhookServiceBuilder {
    type V = PolicyView;

    closed spec fn view(&self) -> PolicyView {
        PolicyView {
            organizers: string_views(self.organizers@),
            events: string_views(self.events@),
            credentials: digests_of(self.credentials@),
            body_limit: self.body_limit,
        }
    }
}

/// Adds `value` to `v` unless it is already there.
fn insert_string_once(v: &mut Vec<String>, value: &str)
    ensures
        string_views(final(v)@) == insert_once(string_views(old(v)@), value@),
{
    if !contains_str(v, value) {
        let ghost before = string_views(v@);
        v.push(String::from_str(value));
        assert(string_views(v@) =~= before.push(value@));
    }
}

proof fn lemma_insert_once_distinct(s: Seq<Seq<char>>, x: Seq<char>)
    requires
        s.no_duplicates(),
    ensures
        insert_once(s, x).no_duplicates(),
{
    if !s.contains(x) {
        let t = s.push(x);
        assert forall|i: int, j: int| 0 <= i < t.len() && 0 <= j < t.len() && i != j implies t[i]
            != t[j] by {
            if i == s.len() as int {
                assert(t[j] == s[j]);
            } else if j == s.len() as int {
                assert(t[i] == s[i]);
            }
        }
    }
}

impl WebhookServiceBuilder {
    /// Each allowed slug is held once.
    #[verifier::type_invariant]
    closed spec fn filters_distinct(self) -> bool {
        string_views(self.organizers@).no_duplicates() && string_views(self.events@).no_duplicates()
    }

    /// Creates a builder with no filters, no authentication requirement and
    /// the default body limit.
    pub fn new() -> (res: Self)
        ensures
            res@.organizers.len() == 0,
            res@.events.len() == 0,
            res@.credentials.len() == 0,
            res@.body_limit == DEFAULT_BODY_LIMIT,
    {
        let res = WebhookServiceBuilder {
            organizers: Vec::new(),
            events: Vec::new(),
            credentials: Vec::new(),
            body_limit: DEFAULT_BODY_LIMIT,
        };
        assert(string_views(res.organizers@) =~= Seq::<Seq<char>>::empty());
        assert(string_views(res.events@) =~= Seq::<Seq<char>>::empty());
        assert(digests_of(res.credentials@) =~= Seq::<Seq<u8>>::empty());
        res
    }

    /// Allows payloads from one organizer slug.
    pub fn allow_organizer(self, organizer: &str) -> (res: Result<Self, WebhookFilterError>)
        ensures
            res is Ok <==> is_valid_filter_value(organizer@),
            res matches Ok(b) ==> b@ == (PolicyView {
                organizers: insert_once(self@.organizers, organizer@),
                ..self@
            }),
            res matches Err(e) ==> e@ == filter_error_message("organizer"@, organizer@),
    {
        proof {
            use_type_invariant(&self);
        }
        match validate_filter("organizer", organizer) {
            Err(e) => return Err(e),
            Ok(()) => {},
        }
        let WebhookServiceBuilder { mut organizers, events, credentials, body_limit } = self;
        proof {
            lemma_insert_once_distinct(string_views(organizers@), organizer@);
        }
        insert_string_once(&mut organizers, organizer);
        Ok(WebhookServiceBuilder { organizers, events, credentials, body_limit })
    }

    /// Allows payloads for one event slug, independently of organizer filters.
    pub fn allow_event(self, event: &str) -> (res: Result<Self, WebhookFilterError>)
        ensures
            res is Ok <==> is_valid_filter_value(event@),
            res matches Ok(b) ==> b@ == (PolicyView {
                events: insert_once(self@.events, event@),
                ..self@
            }),
            res matches Err(e) ==> e@ == filter_error_message("event"@, event@),
    {
        proof {
            use_type_invariant(&self);
        }
        match validate_filter("event", event) {
            Err(e) => return Err(e),
            Ok(()) => {},
        }
        let WebhookServiceBuilder { organizers, mut events, credentials, body_limit } = self;
        proof {
            lemma_insert_once_distinct(string_views(events@), event@);
        }
        insert_string_once(&mut events, event);
        Ok(WebhookServiceBuilder { organizers, events, credentials, body_limit })
    }

    /// Requires any one of the supplied credentials; an empty list disables
    /// authentication.
    pub fn require_basic_auth(self, credentials: Vec<BasicAuthCredential>) -> (res: Self)
        ensures
            res@ == (PolicyView { credentials: digests_of(credentials@), ..self@ }),
    {
        proof {
            use_type_invariant(&self);
        }
        let WebhookServiceBuilder { organizers, events, credentials: _, body_limit } = self;
        WebhookServiceBuilder { organizers, events, credentials, body_limit }
    }

    /// Sets the maximum request body size in bytes.
    pub fn body_limit(self, body_limit: usize) -> (res: Self)
        ensures
            res@ == (PolicyView { body_limit, ..self@ }),
    {
        proof {
            use_type_invariant(&self);
        }
        let WebhookServiceBuilder { organizers, events, credentials, body_limit: _ } = self;
        WebhookServiceBuilder { organizers, events, credentials, body_limit }
    }

    /// Builds an HTTP webhook service around an event handler.
    pub fn build<H>(self, handler: H) -> (res: WebhookService<H>)
        ensures
            res.spec_policy() == self@,
            res.spec_handler() == handler,
    {
        WebhookService::new(handler, self)
    }

    /// A copy of this policy.
    pub fn duplicate(&self) -> (res: Self)
        ensures
            res@ == self@,
    {
        proof {
            use_type_invariant(self);
        }
        let organizers = copy_strings(&self.organizers);
        let events = copy_strings(&self.events);
        let mut credentials: Vec<BasicAuthCredential> = Vec::new();
        let mut i: usize = 0;
        while i < self.credentials.len()
            invariant
                i <= self.credentials@.len(),
                credentials@.len() == i,
                digests_of(credentials@) == digests_of(self.credentials@.subrange(0, i as int)),
            decreases self.credentials@.len() - i,
        {
            let ghost before = credentials@;
            credentials.push(self.credentials[i].duplicate());
            assert forall|j: int| 0 <= j < i + 1 implies #[trigger] digests_of(credentials@)[j]
                == digests_of(self.credentials@.subrange(0, i + 1))[j] by {
                if j < i {
                    assert(credentials@[j] == before[j]);
                    assert(digests_of(credentials@)[j] == digests_of(before)[j]);
                    assert(digests_of(before)[j] == digests_of(
                        self.credentials@.subrange(0, i as int),
                    )[j]);
                }
            }
            assert(digests_of(credentials@) =~= digests_of(self.credentials@.subrange(0, i + 1)));
            i = i + 1;
        }
        assert(self.credentials@.subrange(0, self.credentials@.len() as int) =~= self.credentials@);
        WebhookServiceBuilder { organizers, events, credentials, body_limit: self.body_limit }
    }

    /// Reports whether an event passes the organizer and event filters.
    pub fn allows(&self, event: &WebhookEvent) -> (res: bool)
        ensures
            res == policy_allows(self@, *event),
    {
        let organizer_ok = self.organizers.len() == 0 || match event.organizer_slug() {
            Some(organizer) => contains_str(&self.organizers, organizer),
            None => false,
        };
        let event_ok = self.events.len() == 0 || !event.is_event_level() || match event.event_slug() {
            Some(slug) => contains_str(&self.events, slug),
            None => false,
        };
        organizer_ok && event_ok
    }

    /// Checks the `Authorization` header value (when the request has one whose
    /// text is visible ASCII) against the configured credentials.
    pub fn authenticates(&self, authorization: Option<&str>) -> (res: bool)
        ensures
            res == credentials_accept(
                self@.credentials,
                match authorization {
                    Some(h) => Some(h@),
                    None => None,
                },
            ),
    {
        authenticate(&self.credentials, authorization)
    }

    /// The maximum request body size in bytes.
    pub fn body_limit_bytes(&self) -> (res: usize)
        ensures
            res == self@.body_limit,
    {
        self.body_limit
    }

    /// Reports how much policy is configured without disclosing any of it.
    pub fn debug_string(&self) -> (res: String)
        ensures
            res@ == redacted_debug(self@),
    {
        let mut out = String::from_str("WebhookServiceBuilder { organizers: <");
        let count = decimal(self.organizers.len());
        out.append(count.as_str());
        out.append(" REDACTED>, events: <");
        let count = decimal(self.events.len());
        out.append(count.as_str());
        out.append(" REDACTED>, credentials: <");
        let count = decimal(self.credentials.len());
        out.append(count.as_str());
        out.append(" REDACTED>, body_limit: ");
        let limit = decimal(self.body_limit);
        out.append(limit.as_str());
        out.append(" }");
        out
    }
}

/// A builder with no filters lets every payload through.
pub proof fn lemma_empty_filters_allow_everything(p: PolicyView, e: WebhookEvent)
    requires
        p.organizers.len() == 0,
        p.events.len() == 0,
    ensures
        policy_allows(p, e),
{
}

/// Organizer-level payloads consult only the organizer filter: the event
/// filter never changes whether they pass.
pub proof fn lemma_organizer_level_ignores_event_filter(
    p: PolicyView,
    events: Seq<Seq<char>>,
    e: WebhookEvent,
)
    requires
        !e.spec_is_event_level(),
    ensures
        policy_allows(p, e) == policy_allows(PolicyView { events, ..p }, e),
{
}

/// The two filters are independent: a payload passes exactly when it passes
/// the organizer filter alone and the event filter alone.
pub proof fn lemma_filters_independent(p: PolicyView, e: WebhookEvent)
    ensures
        policy_allows(p, e) == (policy_allows(PolicyView { events: Seq::empty(), ..p }, e)
            && policy_allows(PolicyView { organizers: Seq::empty(), ..p }, e)),
{
}

/// A filter diagnostic never quotes the rejected value: two values that are
/// both empty, or both non-empty, are rejected with the same message.
pub proof fn lemma_filter_message_hides_value(kind: Seq<char>, a: Seq<char>, b: Seq<char>)
    requires
        (a.len() == 0) == (b.len() == 0),
    ensures
        filter_error_message(kind, a) == filter_error_message(kind, b),
{
}

/// An event-level payload whose event slug cannot be read fails a configured
/// event filter, and a payload whose organizer slug cannot be read fails a
/// configured organizer filter.
pub proof fn lemma_unreadable_slugs_fail_filters(p: PolicyView, e: WebhookEvent)
    ensures
        p.events.len() > 0 && e.spec_is_event_level() && e.spec_event_slug() is None ==> !policy_allows(p, e),
        p.organizers.len() > 0 && e.spec_organizer_slug() is None ==> !policy_allows(p, e),
{
}

/// The rendered policy reveals only how much is configured: two policies
/// with as many slugs and credentials and the same body limit render the
/// same text.
pub proof fn lemma_debug_reveals_only_sizes(a: PolicyView, b: PolicyView)
    requires
        a.organizers.len() == b.organizers.len(),
        a.events.len() == b.events.len(),
        a.credentials.len() == b.credentials.len(),
        a.body_limit == b.body_limit,
    ensures
        redacted_debug(a) == redacted_debug(b),
{
}

} // verus!
