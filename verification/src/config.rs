//! Per-organizer authentication and event policy for a webhook endpoint: each
//! allowed organizer carries either every event or a set of allowed events.
use vstd::prelude::*;
use vstd::string::*;

use crate::auth::{authenticate, credentials_accept, digests_of, BasicAuthCredential};
use crate::events::{reads_json_payload, PayloadError, WebhookEvent};
use crate::service::{handled_status, Admission, WebhookStatus};
use crate::text::{contains_str, str_eq, string_views};

verus! {

/// The events allowed for one organizer.
pub enum AllowedEvents {
    /// Every event of the organizer.
    All,
    /// Only these event slugs.
    Only(Vec<String>),
}

/// The view of [`AllowedEvents`].
pub enum EventsView {
    All,
    Only(Set<Seq<char>>),
}

impl View for AllowedEvents {
    type V = EventsView;

    open spec fn view(&self) -> EventsView {
        match self {
            AllowedEvents::All => EventsView::All,
            AllowedEvents::Only(v) => EventsView::Only(string_views(v@).to_set()),
        }
    }
}

/// The configured policy: whether everything is allowed, the organizers
/// with their allowed events (looked up by first entry), and the accepted
/// credential digests.
pub struct ConfigView {
    pub organizers: Seq<(Seq<char>, EventsView)>,
    pub unrestricted: bool,
    pub credentials: Seq<Seq<u8>>,
}

/// The events allowed for organizer `o`, if the organizer is allowed.
pub open spec fn events_for(orgs: Seq<(Seq<char>, EventsView)>, o: Seq<char>) -> Option<EventsView>
    decreases orgs.len(),
{
    if orgs.len() == 0 {
        None
    } else if orgs[0].0 == o {
        Some(orgs[0].1)
    } else {
        events_for(orgs.drop_first(), o)
    }
}

/// Whether the policy lets `e` through: everything when unrestricted;
/// otherwise the organizer must be allowed, and, unless every event of that
/// organizer is allowed, an event-level payload must carry a readable event
/// slug that is one of the organizer's allowed events. Organizer-level
/// payloads consult only the organizer.
pub open spec fn config_allows(c: ConfigView, e: WebhookEvent) -> bool {
    c.unrestricted || (e.spec_organizer_slug() matches Some(o) && events_for(c.organizers, o) matches Some(
        allowed,
    ) && events_admit(allowed, e))
}

/// The events an organizer is allowed admit `e`: every event does, and an
/// event list admits an organizer-level payload, or an event-level one whose
/// readable event slug it holds.
pub open spec fn events_admit(allowed: EventsView, e: WebhookEvent) -> bool {
    match allowed {
        EventsView::All => true,
        EventsView::Only(s) => !e.spec_is_event_level() || (e.spec_event_slug() matches Some(x)
            && s.contains(x)),
    }
}

/// Some entry of the policy names the payload's organizer and admits it.
pub open spec fn some_entry_admits(c: ConfigView, e: WebhookEvent) -> bool {
    exists|i: int|
        0 <= i < c.organizers.len() && e.spec_organizer_slug() == Some(#[trigger] c.organizers[i].0)
            && events_admit(c.organizers[i].1, e)
}

/// No organizer has two entries.
pub open spec fn distinct_organizers(orgs: Seq<(Seq<char>, EventsView)>) -> bool {
    forall|i: int, j: int|
        0 <= i < orgs.len() && 0 <= j < orgs.len() && i != j ==> #[trigger] orgs[i].0
            != #[trigger] orgs[j].0
}

/// Authentication and organizer/event policy for a webhook endpoint.
pub struct WebhookConfig {
    organizers: Vec<(String, AllowedEvents)>,
    unrestricted: bool,
    credentials: Vec<BasicAuthCredential>,
}

/// The view of the organizer entries.
pub open spec fn organizer_entries(v: Seq<(String, AllowedEvents)>) -> Seq<(Seq<char>, EventsView)> {
    v.map_values(|e: (String, AllowedEvents)| (e.0@, e.1@))
}

impl View for WebhookConfig {
    type V = ConfigView;

    closed spec fn view(&self) -> ConfigView {
        ConfigView {
            organizers: organizer_entries(self.organizers@),
            unrestricted: self.unrestricted,
            credentials: digests_of(self.credentials@),
        }
    }
}

impl WebhookConfig {
    /// Each organizer has one entry.
    #[verifier::type_invariant]
    closed spec fn organizers_distinct(self) -> bool {
        distinct_organizers(organizer_entries(self.organizers@))
    }
}

/// `i` is the first entry of organizer `o`.
spec fn is_first_entry(orgs: Seq<(Seq<char>, EventsView)>, o: Seq<char>, i: int) -> bool {
    0 <= i < orgs.len() && orgs[i].0 == o && forall|j: int| 0 <= j < i ==> orgs[j].0 != o
}

proof fn lemma_events_for_first(orgs: Seq<(Seq<char>, EventsView)>, o: Seq<char>, i: int)
    requires
        is_first_entry(orgs, o, i),
    ensures
        events_for(orgs, o) == Some(orgs[i].1),
    decreases i,
{
    if i > 0 {
        let rest = orgs.drop_first();
        assert(is_first_entry(rest, o, i - 1)) by {
            assert forall|j: int| 0 <= j < i - 1 implies rest[j].0 != o by {
                assert(rest[j] == orgs[j + 1]);
            }
        }
        lemma_events_for_first(rest, o, i - 1);
    }
}

proof fn lemma_events_for_absent(orgs: Seq<(Seq<char>, EventsView)>, o: Seq<char>)
    requires
        forall|j: int| 0 <= j < orgs.len() ==> orgs[j].0 != o,
    ensures
        events_for(orgs, o) is None,
    decreases orgs.len(),
{
    if orgs.len() > 0 {
        let rest = orgs.drop_first();
        assert forall|j: int| 0 <= j < rest.len() implies rest[j].0 != o by {
            assert(rest[j] == orgs[j + 1]);
        }
        lemma_events_for_absent(rest, o);
    }
}

/// Replacing the value of an entry keeps every other organizer's events.
proof fn lemma_events_for_update(
    orgs: Seq<(Seq<char>, EventsView)>,
    i: int,
    v: EventsView,
    other: Seq<char>,
)
    requires
        0 <= i < orgs.len(),
        other != orgs[i].0,
    ensures
        events_for(orgs.update(i, (orgs[i].0, v)), other) == events_for(orgs, other),
    decreases orgs.len(),
{
    let updated = orgs.update(i, (orgs[i].0, v));
    if i > 0 {
        assert(updated.drop_first() =~= orgs.drop_first().update(i - 1, (orgs[i].0, v)));
        assert(orgs.drop_first()[i - 1] == orgs[i]);
        lemma_events_for_update(orgs.drop_first(), i - 1, v, other);
    } else {
        assert(updated.drop_first() =~= orgs.drop_first());
    }
}

/// Appending an entry for a new organizer keeps every other organizer's events.
proof fn lemma_events_for_push(orgs: Seq<(Seq<char>, EventsView)>, entry: (Seq<char>, EventsView), other: Seq<char>)
    requires
        other != entry.0,
    ensures
        events_for(orgs.push(entry), other) == events_for(orgs, other),
    decreases orgs.len(),
{
    if orgs.len() > 0 {
        assert(orgs.push(entry)[0] == orgs[0]);
        assert(orgs.push(entry).drop_first() =~= orgs.drop_first().push(entry));
        lemma_events_for_push(orgs.drop_first(), entry, other);
    } else {
        assert(orgs.push(entry)[0] == entry);
        assert(orgs.push(entry).drop_first() =~= Seq::<(Seq<char>, EventsView)>::empty());
        assert(events_for(Seq::<(Seq<char>, EventsView)>::empty(), other) is None);
    }
}

/// The events of an organizer after allowing one more event: a new
/// organizer gets just that event; an organizer with every event keeps it.
pub open spec fn with_event(current: Option<EventsView>, event: Seq<char>) -> EventsView {
    match current {
        None => EventsView::Only(Set::empty().insert(event)),
        Some(EventsView::All) => EventsView::All,
        Some(EventsView::Only(s)) => EventsView::Only(s.insert(event)),
    }
}

/// The first entry of `organizer`, if any.
fn find_organizer(organizers: &Vec<(String, AllowedEvents)>, organizer: &str) -> (res: Option<usize>)
    ensures
        match res {
            Some(i) => is_first_entry(organizer_entries(organizers@), organizer@, i as int),
            None => forall|j: int|
                0 <= j < organizers@.len() ==> organizer_entries(organizers@)[j].0 != organizer@,
        },
{
    let ghost entries = organizer_entries(organizers@);
    let mut i: usize = 0;
    while i < organizers.len()
        invariant
            i <= organizers@.len(),
            entries == organizer_entries(organizers@),
            forall|j: int| 0 <= j < i ==> entries[j].0 != organizer@,
        decreases organizers@.len() - i,
    {
        if str_eq(organizers[i].0.as_str(), organizer) {
            return Some(i);
        }
        i = i + 1;
    }
    None
}

fn copy_events(v: &Vec<String>) -> (res: Vec<String>)
    ensures
        res@ == v@,
{
    crate::text::copy_strings(v)
}

impl WebhookConfig {
    /// Creates a policy with no restriction and no credential: every event
    /// is allowed and every request is accepted until a filter or a
    /// credential is added.
    pub fn new() -> (res: Self)
        ensures
            distinct_organizers(res@.organizers),
            res@.organizers.len() == 0,
            res@.unrestricted,
            res@.credentials.len() == 0,
            forall|e: WebhookEvent| config_allows(res@, e),
            forall|h: Option<Seq<char>>| credentials_accept(res@.credentials, h),
    {
        let res = WebhookConfig {
            organizers: Vec::new(),
            unrestricted: true,
            credentials: Vec::new(),
        };
        assert(organizer_entries(res.organizers@) =~= Seq::<(Seq<char>, EventsView)>::empty());
        assert(digests_of(res.credentials@) =~= Seq::<Seq<u8>>::empty());
        res
    }

    /// Clears configured restrictions and allows every organizer and event.
    pub fn allow_everything(self) -> (res: Self)
        ensures
            distinct_organizers(res@.organizers),
            res@.organizers.len() == 0,
            res@.unrestricted,
            res@.credentials == self@.credentials,
    {
        let WebhookConfig { organizers: _, unrestricted: _, credentials } = self;
        let res = WebhookConfig { organizers: Vec::new(), unrestricted: true, credentials };
        assert(organizer_entries(res.organizers@) =~= Seq::<(Seq<char>, EventsView)>::empty());
        proof {
            use_type_invariant(&res);
        }
        res
    }

    /// Allows organizer-level payloads and one event for an organizer.
    pub fn allow_event(self, organizer: &str, event: &str) -> (res: Self)
        ensures
            distinct_organizers(res@.organizers),
            !res@.unrestricted,
            res@.credentials == self@.credentials,
            events_for(res@.organizers, organizer@) == Some(
                with_event(events_for(self@.organizers, organizer@), event@),
            ),
            forall|o: Seq<char>|
                o != organizer@ ==> events_for(#[trigger] res@.organizers, o) == events_for(
                    self@.organizers,
                    o,
                ),
    {
        proof {
            use_type_invariant(&self);
        }
        let WebhookConfig { mut organizers, unrestricted: _, credentials } = self;
        let ghost before = organizer_entries(organizers@);
        match find_organizer(&organizers, organizer) {
            Some(i) => {
                proof {
                    lemma_events_for_first(before, organizer@, i as int);
                }
                let updated = match &organizers[i].1 {
                    AllowedEvents::All => AllowedEvents::All,
                    AllowedEvents::Only(events) => {
                        let mut copy = copy_events(events);
                        let ghost old_set = string_views(events@).to_set();
                        if !contains_str(&copy, event) {
                            copy.push(String::from_str(event));
                        }
                        assert(string_views(copy@).to_set() =~= old_set.insert(event@)) by {
                            assert forall|x: Seq<char>| string_views(copy@).to_set().contains(x) <==> old_set.insert(event@).contains(x) by {
                                if string_views(copy@).contains(x) {
                                    let k = choose|k: int| 0 <= k < string_views(copy@).len() && string_views(copy@)[k] == x;
                                    if k < events@.len() {
                                        assert(string_views(events@)[k] == x);
                                    }
                                }
                                if old_set.contains(x) && x != event@ {
                                    let k = choose|k: int| 0 <= k < string_views(events@).len() && string_views(events@)[k] == x;
                                    assert(string_views(copy@)[k] == x);
                                }
                                if x == event@ && !string_views(events@).contains(x) {
                                    assert(string_views(copy@)[events@.len() as int] == x);
                                }
                            }
                        }
                        AllowedEvents::Only(copy)
                    },
                };
                let key = String::from_str(organizer);
                let ghost new_view = updated@;
                organizers.set(i, (key, updated));
                let ghost after = organizer_entries(organizers@);
                assert(after =~= before.update(i as int, (organizer@, new_view)));
                assert(is_first_entry(after, organizer@, i as int));
                assert(distinct_organizers(after)) by {
                    assert forall|a: int, b: int|
                        0 <= a < after.len() && 0 <= b < after.len() && a != b implies #[trigger] after[a].0
                            != #[trigger] after[b].0 by {
                        assert(after[a].0 == before[a].0);
                        assert(after[b].0 == before[b].0);
                    }
                }
                proof {
                    lemma_events_for_first(after, organizer@, i as int);
                    assert forall|o: Seq<char>| o != organizer@ implies events_for(
                        #[trigger] organizer_entries(organizers@),
                        o,
                    ) == events_for(before, o) by {
                        lemma_events_for_update(before, i as int, new_view, o);
                    }
                }
            },
            None => {
                proof {
                    lemma_events_for_absent(before, organizer@);
                }
                let mut only: Vec<String> = Vec::new();
                only.push(String::from_str(event));
                assert(string_views(only@).to_set() =~= Set::<Seq<char>>::empty().insert(event@)) by {
                    assert(string_views(only@)[0] == event@);
                }
                let entry = (String::from_str(organizer), AllowedEvents::Only(only));
                let ghost entry_view = (entry.0@, entry.1@);
                organizers.push(entry);
                let ghost after = organizer_entries(organizers@);
                assert(after =~= before.push(entry_view));
                assert(is_first_entry(after, organizer@, before.len() as int));
                assert(distinct_organizers(after)) by {
                    assert forall|a: int, b: int|
                        0 <= a < after.len() && 0 <= b < after.len() && a != b implies #[trigger] after[a].0
                            != #[trigger] after[b].0 by {
                        if a < before.len() {
                            assert(after[a].0 == before[a].0);
                        }
                        if b < before.len() {
                            assert(after[b].0 == before[b].0);
                        }
                    }
                }
                proof {
                    lemma_events_for_first(after, organizer@, before.len() as int);
                    assert forall|o: Seq<char>| o != organizer@ implies events_for(
                        #[trigger] organizer_entries(organizers@),
                        o,
                    ) == events_for(before, o) by {
                        lemma_events_for_push(before, entry_view, o);
                    }
                }
            },
        }
        let res = WebhookConfig { organizers, unrestricted: false, credentials };
        proof {
            use_type_invariant(&res);
        }
        res
    }

    /// Allows organizer-level payloads and every event for an organizer.
    pub fn allow_all_events(self, organizer: &str) -> (res: Self)
        ensures
            distinct_organizers(res@.organizers),
            !res@.unrestricted,
            res@.credentials == self@.credentials,
            events_for(res@.organizers, organizer@) == Some(EventsView::All),
            forall|o: Seq<char>|
                o != organizer@ ==> events_for(#[trigger] res@.organizers, o) == events_for(
                    self@.organizers,
                    o,
                ),
    {
        proof {
            use_type_invariant(&self);
        }
        let WebhookConfig { mut organizers, unrestricted: _, credentials } = self;
        let ghost before = organizer_entries(organizers@);
        match find_organizer(&organizers, organizer) {
            Some(i) => {
                let key = String::from_str(organizer);
                organizers.set(i, (key, AllowedEvents::All));
                let ghost after = organizer_entries(organizers@);
                assert(after =~= before.update(i as int, (organizer@, EventsView::All)));
                assert(is_first_entry(after, organizer@, i as int));
                assert(distinct_organizers(after)) by {
                    assert forall|a: int, b: int|
                        0 <= a < after.len() && 0 <= b < after.len() && a != b implies #[trigger] after[a].0
                            != #[trigger] after[b].0 by {
                        assert(after[a].0 == before[a].0);
                        assert(after[b].0 == before[b].0);
                    }
                }
                proof {
                    lemma_events_for_first(after, organizer@, i as int);
                    assert forall|o: Seq<char>| o != organizer@ implies events_for(
                        #[trigger] organizer_entries(organizers@),
                        o,
                    ) == events_for(before, o) by {
                        lemma_events_for_update(before, i as int, EventsView::All, o);
                    }
                }
            },
            None => {
                let entry = (String::from_str(organizer), AllowedEvents::All);
                let ghost entry_view = (entry.0@, entry.1@);
                organizers.push(entry);
                let ghost after = organizer_entries(organizers@);
                assert(after =~= before.push(entry_view));
                assert(is_first_entry(after, organizer@, before.len() as int));
                assert(distinct_organizers(after)) by {
                    assert forall|a: int, b: int|
                        0 <= a < after.len() && 0 <= b < after.len() && a != b implies #[trigger] after[a].0
                            != #[trigger] after[b].0 by {
                        if a < before.len() {
                            assert(after[a].0 == before[a].0);
                        }
                        if b < before.len() {
                            assert(after[b].0 == before[b].0);
                        }
                    }
                }
                proof {
                    lemma_events_for_first(after, organizer@, before.len() as int);
                    assert forall|o: Seq<char>| o != organizer@ implies events_for(
                        #[trigger] organizer_entries(organizers@),
                        o,
                    ) == events_for(before, o) by {
                        lemma_events_for_push(before, entry_view, o);
                    }
                }
            },
        }
        let res = WebhookConfig { organizers, unrestricted: false, credentials };
        proof {
            use_type_invariant(&res);
        }
        res
    }

    /// Requires any one of the supplied credentials.
    pub fn require_basic_auth(self, credentials: Vec<BasicAuthCredential>) -> (res: Self)
        ensures
            distinct_organizers(res@.organizers),
            res@ == (ConfigView { credentials: digests_of(credentials@), ..self@ }),
    {
        proof {
            use_type_invariant(&self);
        }
        let WebhookConfig { organizers, unrestricted, credentials: _ } = self;
        let res = WebhookConfig { organizers, unrestricted, credentials };
        proof {
            use_type_invariant(&res);
        }
        res
    }

    /// Reports whether an event passes the organizer/event policy.
    pub fn allows(&self, event: &WebhookEvent) -> (res: bool)
        ensures
            res == config_allows(self@, *event),
            res == (self@.unrestricted || some_entry_admits(self@, *event)),
            distinct_organizers(self@.organizers),
    {
        proof {
            use_type_invariant(self);
        }
        let ghost orgs = organizer_entries(self.organizers@);
        if self.unrestricted {
            return true;
        }
        let organizer = match event.organizer_slug() {
            Some(o) => o,
            None => return false,
        };
        let i = match find_organizer(&self.organizers, organizer) {
            Some(i) => i,
            None => {
                proof {
                    lemma_events_for_absent(orgs, organizer@);
                }
                return false;
            },
        };
        proof {
            lemma_events_for_first(orgs, organizer@, i as int);
        }
        let admitted = match &self.organizers[i].1 {
            AllowedEvents::All => true,
            AllowedEvents::Only(allowed) => {
                if !event.is_event_level() {
                    true
                } else {
                    match event.event_slug() {
                        None => false,
                        Some(slug) => {
                            let found = contains_str(allowed, slug);
                            assert(found == string_views(allowed@).to_set().contains(slug@));
                            found
                        },
                    }
                }
            },
        };
        proof {
            assert(admitted == events_admit(orgs[i as int].1, *event));
            if admitted {
                assert(orgs[i as int].0 == organizer@);
            } else if some_entry_admits(self@, *event) {
                let j = choose|j: int|
                    0 <= j < orgs.len() && event.spec_organizer_slug() == Some(orgs[j].0)
                        && events_admit(orgs[j].1, *event);
                assert(orgs[j].0 == orgs[i as int].0);
                assert(j == i);
            }
        }
        admitted
    }

    /// Checks the `Authorization` header value against the configured
    /// credentials; an empty list accepts every request.
    pub fn authenticates(&self, authorization: Option<&str>) -> (res: bool)
        ensures
            res == credentials_accept(
                self@.credentials,
                match authorization {
                    Some(h) => Some(h@),
                    None => None,
                },
            ),
    {
        authenticate(&self.credentials, authorization)
    }

    /// Decides what becomes of a received request before the handler runs:
    /// authentication is checked before the payload is read (401), a body
    /// that is not a valid payload gets 400, an event the policy refuses gets
    /// 404, and any other event is dispatched.
    pub fn decide(&self, body: &[u8], authorization: Option<&str>) -> (res: Admission)
        ensures
            config_admits(
                self@,
                body@,
                match authorization {
                    Some(h) => Some(h@),
                    None => None,
                },
                res,
            ),
    {
        if !self.authenticates(authorization) {
            return Admission::Reject(WebhookStatus::Unauthorized);
        }
        let parsed = WebhookEvent::from_json(body);
        let ghost r = parsed;
        match parsed {
            Err(_) => {
                assert(reads_json_payload(body@, r));
                Admission::Reject(WebhookStatus::BadRequest)
            },
            Ok(event) => {
                assert(reads_json_payload(body@, r));
                if self.allows(&event) {
                    Admission::Dispatch(event)
                } else {
                    Admission::Reject(WebhookStatus::NotFound)
                }
            },
        }
    }

    /// The status once the handler has run on a dispatched event: success
    /// is `204`, failure `500`, so that pretix retries.
    pub fn handled(&self, ok: bool) -> (res: WebhookStatus)
        ensures
            res == handled_status(ok),
    {
        if ok {
            WebhookStatus::NoContent
        } else {
            WebhookStatus::InternalServerError
        }
    }
}

/// `res` is what a received request with this body and `Authorization`
/// header gets under policy `c`.
pub open spec fn config_admits(
    c: ConfigView,
    body: Seq<u8>,
    authorization: Option<Seq<char>>,
    res: Admission,
) -> bool {
    if !credentials_accept(c.credentials, authorization) {
        res == Admission::Reject(WebhookStatus::Unauthorized)
    } else {
        exists|r: Result<WebhookEvent, PayloadError>|
            #![trigger reads_json_payload(body, r)]
            reads_json_payload(body, r) && match r {
                Err(_) => res == Admission::Reject(WebhookStatus::BadRequest),
                Ok(e) => if config_allows(c, e) {
                    res == Admission::Dispatch(e)
                } else {
                    res == Admission::Reject(WebhookStatus::NotFound)
                },
            }
    }
}

/// An unrestricted policy lets every payload through.
pub proof fn lemma_unrestricted_allows_everything(c: ConfigView, e: WebhookEvent)
    requires
        c.unrestricted,
    ensures
        config_allows(c, e),
{
}

/// An organizer allowed with every event lets each of its payloads through,
/// whatever event it names.
pub proof fn lemma_all_events_organizer_allowed(c: ConfigView, e: WebhookEvent)
    requires
        e.spec_organizer_slug() matches Some(o) && events_for(c.organizers, o) == Some(
            EventsView::All,
        ),
    ensures
        config_allows(c, e),
{
}

/// An event-level payload whose event slug cannot be read fails an
/// organizer's event list; it passes only where every event of the
/// organizer is allowed, or where nothing is restricted.
pub proof fn lemma_unreadable_event_fails_event_list(c: ConfigView, e: WebhookEvent)
    requires
        !c.unrestricted,
        e.spec_is_event_level(),
        e.spec_event_slug() is None,
        e.spec_organizer_slug() matches Some(o) && events_for(c.organizers, o) matches Some(
            EventsView::Only(_),
        ),
    ensures
        !config_allows(c, e),
{
}

} // verus!
