//! Operator settings resolved into validated webhook endpoints: one endpoint
//! from flags and environment values (simple mode), or several beneath one
//! prefix from a configuration document (multi mode). The two modes cannot be
//! mixed.
use vstd::prelude::*;
use vstd::string::*;

use crate::auth::{credential_digest, digests_of, BasicAuthCredential};
use crate::builder::{
    distinct_in_order, insert_once, lemma_distinct_in_order_of_distinct, filter_error_message, is_valid_filter_value, PolicyView, WebhookServiceBuilder,
    DEFAULT_BODY_LIMIT,
};
use crate::path::{
    absolute_path_problem, is_valid_absolute_path, is_valid_relative_path, joined_path,
    path_error_message, relative_path_problem, resolve_webhook_path,
    validate_absolute_webhook_path, validate_relative_webhook_path, validate_webhook_prefix,
};
use crate::text::{
    contains_char, debug_str, decimal, contains_duplicates, debug_text, spec_decimal, split_all,
    split_on, split_once_at, split_once_char, str_eq, string_views,
};

verus! {

/// Why a `USERNAME:PASSWORD` value is rejected, if it is.
pub open spec fn credential_problem(value: Seq<char>) -> Option<Seq<char>> {
    match split_once_at(value, ':') {
        None => Some("expected USERNAME:PASSWORD"@),
        Some((username, password)) => if username.len() == 0 || password.len() == 0 {
            Some("username and password must be non-empty"@)
        } else {
            None
        },
    }
}

/// The digest of the credential that a `USERNAME:PASSWORD` value names; the
/// username ends at the first colon.
pub open spec fn credential_of(value: Seq<char>) -> Seq<u8> {
    match split_once_at(value, ':') {
        Some((username, password)) => credential_digest(username, password),
        None => Seq::empty(),
    }
}

/// Reads one `USERNAME:PASSWORD` credential value.
pub fn parse_credential(value: &str) -> (res: Result<BasicAuthCredential, String>)
    ensures
        res is Ok <==> credential_problem(value@) is None,
        res matches Ok(c) ==> c@ == credential_of(value@),
        res matches Err(e) ==> credential_problem(value@) == Some(e@),
{
    match split_once_char(value, ':') {
        None => Err(String::from_str("expected USERNAME:PASSWORD")),
        Some((username, password)) => {
            if username.unicode_len() == 0 || password.unicode_len() == 0 {
                Err(String::from_str("username and password must be non-empty"))
            } else {
                Ok(BasicAuthCredential::new(username, password))
            }
        },
    }
}

/// One organizer/event policy entry: `ORGANIZER/EVENT`, or `ORGANIZER/*` for
/// every event of an organizer.
#[derive(Clone, Debug, PartialEq, Eq)]
pub enum AllowedTarget {
    Event { organizer: String, event: String },
    AllEvents { organizer: String },
}

/// The organizer of a target, and its event (`None` for every event).
pub open spec fn target_view(t: AllowedTarget) -> (Seq<char>, Option<Seq<char>>) {
    match t {
        AllowedTarget::Event { organizer, event } => (organizer@, Some(event@)),
        AllowedTarget::AllEvents { organizer } => (organizer@, None),
    }
}

/// Why an `ORGANIZER/EVENT` value is rejected, if it is.
pub open spec fn target_problem(value: Seq<char>) -> Option<Seq<char>> {
    match split_once_at(value, '/') {
        None => Some("expected ORGANIZER/EVENT or ORGANIZER/*"@),
        Some((organizer, event)) => if organizer.len() == 0 || event.len() == 0 || event.contains(
            '/',
        ) {
            Some("organizer and event slugs must be non-empty and contain no '/'"@)
        } else {
            None
        },
    }
}

/// The target an `ORGANIZER/EVENT` value names.
pub open spec fn target_of(value: Seq<char>) -> (Seq<char>, Option<Seq<char>>) {
    match split_once_at(value, '/') {
        Some((organizer, event)) => (organizer, if event == "*"@ {
            None
        } else {
            Some(event)
        }),
        None => (value, None),
    }
}

impl AllowedTarget {
    /// Reads `ORGANIZER/EVENT` or `ORGANIZER/*`.
    pub fn parse(value: &str) -> (res: Result<AllowedTarget, String>)
        ensures
            res is Ok <==> target_problem(value@) is None,
            res matches Ok(t) ==> target_view(t) == target_of(value@),
            res matches Err(e) ==> target_problem(value@) == Some(e@),
    {
        match split_once_char(value, '/') {
            None => Err(String::from_str("expected ORGANIZER/EVENT or ORGANIZER/*")),
            Some((organizer, event)) => {
                if organizer.unicode_len() == 0 || event.unicode_len() == 0 || contains_char(
                    event,
                    '/',
                ) {
                    return Err(
                        String::from_str(
                            "organizer and event slugs must be non-empty and contain no '/'",
                        ),
                    );
                }
                if str_eq(event, "*") {
                    Ok(AllowedTarget::AllEvents { organizer: String::from_str(organizer) })
                } else {
                    Ok(
                        AllowedTarget::Event {
                            organizer: String::from_str(organizer),
                            event: String::from_str(event),
                        },
                    )
                }
            },
        }
    }
}

impl std::str::FromStr for AllowedTarget {
    type Err = String;

    fn from_str(value: &str) -> (res: Result<AllowedTarget, String>)
        ensures
            res is Ok <==> target_problem(value@) is None,
            res matches Ok(t) ==> target_view(t) == target_of(value@),
            res matches Err(e) ==> target_problem(value@) == Some(e@),
    {
        AllowedTarget::parse(value)
    }
}

/// The entries of a semicolon-separated list value. An absent value is an
/// omitted list; an empty value is a one-entry list, so that it stays a
/// configuration error instead of silently meaning "unrestricted".
pub fn semicolon_list(value: Option<&str>) -> (res: Vec<String>)
    ensures
        string_views(res@) == match value {
            Some(v) => split_on(v@, ';'),
            None => Seq::empty(),
        },
{
    match value {
        Some(v) => split_all(v, ';'),
        None => {
            let res: Vec<String> = Vec::new();
            assert(string_views(res@) =~= Seq::<Seq<char>>::empty());
            res
        },
    }
}

/// Why settings could not be resolved into endpoints.
#[derive(Clone, Debug, PartialEq, Eq)]
pub enum EndpointError {
    /// Simple-mode and multi-mode settings were combined.
    MixedMode(String),
    /// A simple-mode setting is invalid.
    InvalidSimple(String),
    /// The configuration document is semantically invalid; the message lists
    /// every problem found.
    InvalidToml(String),
}

impl EndpointError {
    /// The detail the error carries.
    pub fn message(&self) -> (res: &str)
        ensures
            res@ == match self {
                EndpointError::MixedMode(m) => m@,
                EndpointError::InvalidSimple(m) => m@,
                EndpointError::InvalidToml(m) => m@,
            },
    {
        match self {
            EndpointError::MixedMode(m) => m.as_str(),
            EndpointError::InvalidSimple(m) => m.as_str(),
            EndpointError::InvalidToml(m) => m.as_str(),
        }
    }
}

/// What an endpoint is: its exact path, its policy, and whether it was
/// configured with no filters or with no credentials.
pub struct EndpointView {
    pub path: Seq<char>,
    pub policy: PolicyView,
    pub unrestricted: bool,
    pub unauthenticated: bool,
}

/// One fully resolved and validated webhook endpoint.
pub struct EffectiveEndpoint {
    path: String,
    webhook_config: WebhookServiceBuilder,
    unrestricted: bool,
    unauthenticated: bool,
}

impl View for EffectiveEndpoint {
    type V = EndpointView;

    closed spec fn view(&self) -> EndpointView {
        EndpointView {
            path: self.path@,
            policy: self.webhook_config@,
            unrestricted: self.unrestricted,
            unauthenticated: self.unauthenticated,
        }
    }
}

impl EffectiveEndpoint {
    /// The exact path at which the endpoint is served.
    pub fn path(&self) -> (res: &str)
        ensures
            res@ == self@.path,
    {
        self.path.as_str()
    }

    /// The endpoint was configured with neither organizer nor event filters.
    pub fn is_unrestricted(&self) -> (res: bool)
        ensures
            res == self@.unrestricted,
    {
        self.unrestricted
    }

    /// The endpoint was configured without credentials.
    pub fn is_unauthenticated(&self) -> (res: bool)
        ensures
            res == self@.unauthenticated,
    {
        self.unauthenticated
    }

    /// The path and the policy of the endpoint.
    pub fn into_parts(self) -> (res: (String, WebhookServiceBuilder))
        ensures
            res.0@ == self@.path,
            res.1@ == self@.policy,
    {
        (self.path, self.webhook_config)
    }
}

/// The first of a list of possible problems.
pub open spec fn first_problem(problems: Seq<Option<Seq<char>>>) -> Option<Seq<char>>
    decreases problems.len(),
{
    if problems.len() == 0 {
        None
    } else {
        match first_problem(problems.drop_last()) {
            Some(p) => Some(p),
            None => problems.last(),
        }
    }
}

/// Why a filter value of the given kind is rejected, if it is.
pub open spec fn filter_problem(kind: Seq<char>, value: Seq<char>) -> Option<Seq<char>> {
    if is_valid_filter_value(value) {
        None
    } else {
        Some(filter_error_message(kind, value))
    }
}

/// The problems of each filter value of a list.
pub open spec fn filter_problems(kind: Seq<char>, values: Seq<Seq<char>>) -> Seq<Option<Seq<char>>> {
    values.map_values(|v: Seq<char>| filter_problem(kind, v))
}

/// The problems of each credential value of a list.
pub open spec fn credential_problems(values: Seq<Seq<char>>) -> Seq<Option<Seq<char>>> {
    values.map_values(|v: Seq<char>| credential_problem(v))
}

/// The digests of each credential value of a list.
pub open spec fn credentials_of(values: Seq<Seq<char>>) -> Seq<Seq<u8>> {
    values.map_values(|v: Seq<char>| credential_of(v))
}

/// The path a simple-mode endpoint is served at.
pub open spec fn simple_path(path: Option<Seq<char>>) -> Seq<char> {
    match path {
        Some(p) => p,
        None => "/webhook"@,
    }
}

/// Why simple-mode settings are invalid, checked in this order: repeated
/// organizer slugs, repeated event slugs, the first malformed environment
/// credential, the first invalid organizer filter, the first invalid event
/// filter.
pub open spec fn simple_problem(
    organizers: Seq<Seq<char>>,
    events: Seq<Seq<char>>,
    environment_credentials: Seq<Seq<char>>,
) -> Option<Seq<char>> {
    if !organizers.no_duplicates() {
        Some("duplicate organizer slug"@)
    } else if !events.no_duplicates() {
        Some("duplicate event slug"@)
    } else if let Some(e) = first_problem(credential_problems(environment_credentials)) {
        Some("credential in PRETIX_WEBHOOK_CREDENTIALS is invalid: "@ + e)
    } else if let Some(e) = first_problem(filter_problems("organizer"@, organizers)) {
        Some(e)
    } else {
        first_problem(filter_problems("event"@, events))
    }
}

/// The endpoint that valid simple-mode settings describe.
pub open spec fn simple_endpoint_view(
    path: Option<Seq<char>>,
    organizers: Seq<Seq<char>>,
    events: Seq<Seq<char>>,
    credentials: Seq<Seq<u8>>,
) -> EndpointView {
    EndpointView {
        path: simple_path(path),
        policy: PolicyView {
            organizers,
            events,
            credentials,
            body_limit: DEFAULT_BODY_LIMIT,
        },
        unrestricted: organizers.len() == 0 && events.len() == 0,
        unauthenticated: credentials.len() == 0,
    }
}

proof fn lemma_first_problem_step(problems: Seq<Option<Seq<char>>>, k: int)
    requires
        0 <= k < problems.len(),
    ensures
        first_problem(problems.take(k + 1)) == match first_problem(problems.take(k)) {
            Some(p) => Some(p),
            None => problems[k],
        },
{
    assert(problems.take(k + 1).drop_last() =~= problems.take(k));
}

proof fn lemma_take_all<A>(s: Seq<A>)
    ensures
        s.take(s.len() as int) == s,
{
    assert(s.take(s.len() as int) =~= s);
}

/// A builder that allows the given slugs, each once, in the order first
/// given; the first invalid slug (organizers before events) is reported.
fn builder_with_filters(organizers: &Vec<String>, events: &Vec<String>) -> (res: Result<
    WebhookServiceBuilder,
    String,
>)
    ensures
        res is Ok <==> first_problem(filter_problems("organizer"@, string_views(organizers@)))
            is None && first_problem(filter_problems("event"@, string_views(events@))) is None,
        res matches Err(e) ==> Some(e@) == if let Some(p) = first_problem(
            filter_problems("organizer"@, string_views(organizers@)),
        ) {
            Some(p)
        } else {
            first_problem(filter_problems("event"@, string_views(events@)))
        },
        res matches Ok(b) ==> b@ == (PolicyView {
            organizers: distinct_in_order(string_views(organizers@)),
            events: distinct_in_order(string_views(events@)),
            credentials: Seq::empty(),
            body_limit: DEFAULT_BODY_LIMIT,
        }),
{
    let ghost orgs = string_views(organizers@);
    let ghost evs = string_views(events@);
    let mut builder = WebhookServiceBuilder::new();
    assert(builder@.credentials =~= Seq::<Seq<u8>>::empty());
    assert(builder@.organizers =~= distinct_in_order(orgs.take(0)));
    assert(builder@.events =~= Seq::<Seq<char>>::empty());
    let mut i: usize = 0;
    while i < organizers.len()
        invariant
            i <= organizers@.len(),
            orgs == string_views(organizers@),
            first_problem(filter_problems("organizer"@, orgs).take(i as int)) is None,
            builder@ == (PolicyView {
                organizers: distinct_in_order(orgs.take(i as int)),
                events: Seq::empty(),
                credentials: Seq::empty(),
                body_limit: DEFAULT_BODY_LIMIT,
            }),
        decreases organizers@.len() - i,
    {
        proof {
            lemma_first_problem_step(filter_problems("organizer"@, orgs), i as int);
            assert(orgs[i as int] == organizers@[i as int]@);
        }
        match builder.allow_organizer(organizers[i].as_str()) {
            Err(e) => {
                proof {
                    lemma_prefix_problem_first(filter_problems("organizer"@, orgs), i as int + 1);
                }
                return Err(e.to_string());
            },
            Ok(b) => {
                proof {
                    assert(orgs.take(i + 1).drop_last() =~= orgs.take(i as int));
                    assert(orgs.take(i + 1).last() == orgs[i as int]);
                }
                builder = b;
            },
        }
        i = i + 1;
    }
    proof {
        lemma_take_all(filter_problems("organizer"@, orgs));
        lemma_take_all(orgs);
        assert(evs.take(0) =~= Seq::<Seq<char>>::empty());
    }
    let mut i: usize = 0;
    while i < events.len()
        invariant
            i <= events@.len(),
            evs == string_views(events@),
            orgs == string_views(organizers@),
            first_problem(filter_problems("organizer"@, orgs)) is None,
            first_problem(filter_problems("event"@, evs).take(i as int)) is None,
            builder@ == (PolicyView {
                organizers: distinct_in_order(orgs),
                events: distinct_in_order(evs.take(i as int)),
                credentials: Seq::empty(),
                body_limit: DEFAULT_BODY_LIMIT,
            }),
        decreases events@.len() - i,
    {
        proof {
            lemma_first_problem_step(filter_problems("event"@, evs), i as int);
            assert(evs[i as int] == events@[i as int]@);
        }
        match builder.allow_event(events[i].as_str()) {
            Err(e) => {
                proof {
                    assert(filter_problems("event"@, evs)[i as int] == filter_problem("event"@, evs[i as int]));
                    assert(first_problem(filter_problems("event"@, evs).take(i + 1)) == Some(e@));
                    lemma_prefix_problem_first(filter_problems("event"@, evs), i as int + 1);
                    assert(first_problem(filter_problems("event"@, evs)) == Some(e@));
                }
                return Err(e.to_string());
            },
            Ok(b) => {
                proof {
                    assert(evs.take(i + 1).drop_last() =~= evs.take(i as int));
                    assert(evs.take(i + 1).last() == evs[i as int]);
                }
                builder = b;
            },
        }
        i = i + 1;
    }
    proof {
        lemma_take_all(filter_problems("event"@, evs));
        lemma_take_all(evs);
    }
    Ok(builder)
}

/// A problem found in a prefix of a list is the first problem of the whole
/// list.
proof fn lemma_prefix_problem_first(problems: Seq<Option<Seq<char>>>, k: int)
    requires
        0 <= k <= problems.len(),
        first_problem(problems.take(k)) is Some,
    ensures
        first_problem(problems) == first_problem(problems.take(k)),
    decreases problems.len() - k,
{
    if k < problems.len() {
        lemma_first_problem_step(problems, k);
        lemma_prefix_problem_first(problems, k + 1);
    } else {
        lemma_take_all(problems);
    }
}

/// Resolves simple-mode settings into the one endpoint they describe.
///
/// `prefix_given` reports a prefix setting, which only multi mode takes;
/// `credentials` are those given one by one, and `environment_credentials`
/// the unparsed entries of the credential list value.
pub fn simple_endpoint(
    prefix_given: bool,
    path: Option<String>,
    organizers: &Vec<String>,
    events: &Vec<String>,
    credentials: Vec<BasicAuthCredential>,
    environment_credentials: &Vec<String>,
) -> (res: Result<EffectiveEndpoint, EndpointError>)
    ensures
        res matches Err(EndpointError::MixedMode(m)) ==> prefix_given && m@
            == "--prefix and PRETIX_WEBHOOK_PREFIX require --config"@,
        res matches Err(EndpointError::InvalidSimple(m)) ==> !prefix_given && simple_problem(
            string_views(organizers@),
            string_views(events@),
            string_views(environment_credentials@),
        ) == Some(m@),
        !(res matches Err(EndpointError::InvalidToml(_))),
        prefix_given ==> res is Err,
        res is Ok <==> !prefix_given && simple_problem(
            string_views(organizers@),
            string_views(events@),
            string_views(environment_credentials@),
        ) is None,
        res matches Ok(ep) ==> ep@ == simple_endpoint_view(
            match path {
                Some(p) => Some(p@),
                None => None,
            },
            string_views(organizers@),
            string_views(events@),
            digests_of(credentials@) + credentials_of(string_views(environment_credentials@)),
        ),
        res matches Ok(ep) ==> ep@.unrestricted == (ep@.policy.organizers.len() == 0
            && ep@.policy.events.len() == 0) && ep@.unauthenticated == (ep@.policy.credentials.len()
            == 0),
{
    if prefix_given {
        return Err(
            EndpointError::MixedMode(
                String::from_str("--prefix and PRETIX_WEBHOOK_PREFIX require --config"),
            ),
        );
    }
    if contains_duplicates(organizers) {
        return Err(EndpointError::InvalidSimple(String::from_str("duplicate organizer slug")));
    }
    if contains_duplicates(events) {
        return Err(EndpointError::InvalidSimple(String::from_str("duplicate event slug")));
    }
    let ghost env = string_views(environment_credentials@);
    let ghost given = digests_of(credentials@);
    let mut all = credentials;
    let mut i: usize = 0;
    assert(given + credentials_of(env).take(0) =~= given);
    while i < environment_credentials.len()
        invariant
            i <= environment_credentials@.len(),
            env == string_views(environment_credentials@),
            !prefix_given,
            string_views(organizers@).no_duplicates(),
            string_views(events@).no_duplicates(),
            first_problem(credential_problems(env).take(i as int)) is None,
            digests_of(all@) == given + credentials_of(env).take(i as int),
        decreases environment_credentials@.len() - i,
    {
        proof {
            lemma_first_problem_step(credential_problems(env), i as int);
            assert(env[i as int] == environment_credentials@[i as int]@);
        }
        match parse_credential(environment_credentials[i].as_str()) {
            Err(e) => {
                proof {
                    assert(credential_problems(env)[i as int] == credential_problem(env[i as int]));
                    assert(first_problem(credential_problems(env).take(i + 1)) == Some(e@));
                    lemma_prefix_problem_first(credential_problems(env), i as int + 1);
                    assert(first_problem(credential_problems(env)) == Some(e@));
                    assert(string_views(organizers@).no_duplicates());
                    assert(string_views(events@).no_duplicates());
                }
                let mut message = String::from_str(
                    "credential in PRETIX_WEBHOOK_CREDENTIALS is invalid: ",
                );
                message.append(e.as_str());
                return Err(EndpointError::InvalidSimple(message));
            },
            Ok(c) => {
                let ghost before = all@;
                all.push(c);
                proof {
                    assert(digests_of(all@) =~= digests_of(before).push(c@));
                    assert(credentials_of(env).take(i + 1) =~= credentials_of(env).take(
                        i as int,
                    ).push(credential_of(env[i as int])));
                    assert(given + credentials_of(env).take(i + 1) =~= (given + credentials_of(
                        env,
                    ).take(i as int)).push(c@));
                }
            },
        }
        i = i + 1;
    }
    proof {
        lemma_take_all(credential_problems(env));
        lemma_take_all(credentials_of(env));
    }
    let unrestricted = organizers.len() == 0 && events.len() == 0;
    let unauthenticated = all.len() == 0;
    let mut webhook_config = match builder_with_filters(organizers, events) {
        Err(e) => return Err(EndpointError::InvalidSimple(e)),
        Ok(b) => b,
    };
    proof {
        lemma_distinct_in_order_of_distinct(string_views(organizers@));
        lemma_distinct_in_order_of_distinct(string_views(events@));
    }
    if !unauthenticated {
        webhook_config = webhook_config.require_basic_auth(all);
    } else {
        assert(digests_of(all@) =~= Seq::<Seq<u8>>::empty());
    }
    let path = match path {
        Some(p) => p,
        None => String::from_str("/webhook"),
    };
    Ok(EffectiveEndpoint { path, webhook_config, unrestricted, unauthenticated })
}

/// Which simple-mode settings were given, from flags or from the
/// environment.
pub struct SimpleModeInputs {
    pub path: bool,
    pub organizers: bool,
    pub events: bool,
    pub credentials: bool,
}

/// A credential an entry refers to: the environment variable it names, and
/// the variable's value where it is set and valid Unicode.
pub struct CredentialReference {
    pub variable: String,
    pub value: Option<String>,
}

/// One `[[webhooks]]` entry of the configuration document: a path relative
/// to the prefix, its filters and its credential references.
pub struct WebhookEntry {
    pub path: String,
    pub allow_organizers: Vec<String>,
    pub allow_events: Vec<String>,
    pub credential_env: Vec<CredentialReference>,
}

/// The view of an optional string.
pub open spec fn opt_view(s: Option<String>) -> Option<Seq<char>> {
    match s {
        Some(v) => Some(v@),
        None => None,
    }
}

/// The view of an optional string slice.
pub open spec fn opt_str_view(s: Option<&str>) -> Option<Seq<char>> {
    match s {
        Some(v) => Some(v@),
        None => None,
    }
}

/// The messages of the given problems, in order.
pub open spec fn present(problems: Seq<Option<Seq<char>>>) -> Seq<Seq<char>>
    decreases problems.len(),
{
    if problems.len() == 0 {
        Seq::empty()
    } else {
        present(problems.drop_last()) + match problems.last() {
            Some(m) => seq![m],
            None => Seq::empty(),
        }
    }
}

/// A one-message list when `cond` holds, else an empty one.
pub open spec fn message_if(cond: bool, message: Seq<char>) -> Seq<Seq<char>> {
    if cond {
        seq![message]
    } else {
        Seq::empty()
    }
}

/// The simple-mode settings that conflict with a configuration document.
pub open spec fn conflict_errors(given: SimpleModeInputs) -> Seq<Seq<char>> {
    message_if(given.path, "simple webhook path input cannot be combined with --config"@)
        + message_if(
        given.organizers,
        "simple organizer filter inputs cannot be combined with --config"@,
    ) + message_if(given.events, "simple event filter inputs cannot be combined with --config"@)
        + message_if(
        given.credentials,
        "simple credential inputs cannot be combined with --config"@,
    )
}

/// The prefix in effect: an overriding setting, else the document's own,
/// else `/webhook`.
pub open spec fn effective_prefix(overriding: Option<Seq<char>>, file: Option<Seq<char>>) -> Seq<
    char,
> {
    match overriding {
        Some(o) => o,
        None => match file {
            Some(f) => f,
            None => "/webhook"@,
        },
    }
}

/// The message that rejects a prefix.
pub open spec fn prefix_message(prefix: Seq<char>) -> Seq<char> {
    path_error_message("webhook prefix"@, prefix, absolute_path_problem(prefix)->0)
}

/// Problems of the prefixes: the document's own prefix is checked even when
/// an overriding one wins, then the prefix in effect.
pub open spec fn prefix_errors(overriding: Option<Seq<char>>, file: Option<Seq<char>>) -> Seq<
    Seq<char>,
> {
    message_if(
        overriding is Some && file is Some && !is_valid_absolute_path(file->0),
        "overridden TOML prefix is invalid: "@ + prefix_message(file->0),
    ) + message_if(
        !is_valid_absolute_path(effective_prefix(overriding, file)),
        prefix_message(effective_prefix(overriding, file)),
    )
}

/// `webhooks entry N`.
pub open spec fn entry_label(number: nat) -> Seq<char> {
    "webhooks entry "@ + spec_decimal(number)
}

/// The path an entry resolves to, when the prefix and its relative path are
/// both valid.
pub open spec fn resolved_path(prefix: Seq<char>, relative: Seq<char>) -> Option<Seq<char>> {
    if is_valid_absolute_path(prefix) && is_valid_relative_path(relative) {
        Some(joined_path(prefix, relative))
    } else {
        None
    }
}

/// How diagnostics name an entry: its number, and its resolved path where
/// there is one.
pub open spec fn route_label(number: nat, path: Option<Seq<char>>) -> Seq<char> {
    match path {
        Some(p) => entry_label(number) + " ("@ + debug_text(p) + ")"@,
        None => entry_label(number),
    }
}

/// The message for an entry whose relative path an earlier entry already
/// uses.
pub open spec fn duplicate_route_message(number: nat, first: nat, path: Option<Seq<char>>) -> Seq<
    char,
> {
    match path {
        Some(p) => entry_label(number) + ": duplicate resolved webhook path "@ + debug_text(p)
            + " (first used by entry "@ + spec_decimal(first) + ")"@,
        None => entry_label(number) + ": duplicate webhook route (first used by entry "@
            + spec_decimal(first) + "; resolved path unavailable because the prefix is invalid)"@,
    }
}

/// The report of every semantic problem of a document, one per line.
pub open spec fn validation_report(errors: Seq<Seq<char>>) -> Seq<char> {
    "configuration has semantic errors:\n- "@ + joined_lines(errors)
}

/// The messages joined by `\n- `.
pub open spec fn joined_lines(errors: Seq<Seq<char>>) -> Seq<char>
    decreases errors.len(),
{
    if errors.len() == 0 {
        Seq::empty()
    } else if errors.len() == 1 {
        errors[0]
    } else {
        joined_lines(errors.drop_last()) + "\n- "@ + errors.last()
    }
}

/// Names an entry in diagnostics.
fn route_context(route_number: usize, path: Option<&str>) -> (res: String)
    ensures
        res@ == route_label(route_number as nat, opt_str_view(path)),
{
    let mut label = String::from_str("webhooks entry ");
    let number = decimal(route_number);
    label.append(number.as_str());
    match path {
        Some(p) => {
            label.append(" (");
            let quoted = debug_str(p);
            label.append(quoted.as_str());
            label.append(")");
            label
        },
        None => label,
    }
}

/// Renders the report of every semantic problem found.
pub fn format_validation_errors(errors: &Vec<String>) -> (res: String)
    ensures
        res@ == validation_report(string_views(errors@)),
{
    let ghost views = string_views(errors@);
    let mut joined = String::new();
    let mut i: usize = 0;
    assert(views.take(0) =~= Seq::<Seq<char>>::empty());
    while i < errors.len()
        invariant
            i <= errors@.len(),
            views == string_views(errors@),
            joined@ == joined_lines(views.take(i as int)),
        decreases errors@.len() - i,
    {
        assert(views.take(i + 1).drop_last() =~= views.take(i as int));
        if i > 0 {
            joined.append("\n- ");
        } else {
            assert(views.take(1)[0] == views[0]);
        }
        joined.append(errors[i].as_str());
        i = i + 1;
    }
    assert(views.take(errors@.len() as int) =~= views);
    let mut report = String::from_str("configuration has semantic errors:\n- ");
    report.append(joined.as_str());
    report
}

/// Appends `message` to a list of diagnostics.
fn push_message(errors: &mut Vec<String>, message: String)
    ensures
        string_views(final(errors)@) == string_views(old(errors)@).push(message@),
{
    let ghost before = string_views(errors@);
    errors.push(message);
    assert(string_views(errors@) =~= before.push(message@));
}

/// The conflicts between simple-mode settings and a configuration document.
fn multi_mode_conflict_errors(given: &SimpleModeInputs) -> (res: Vec<String>)
    ensures
        string_views(res@) == conflict_errors(*given),
{
    let mut errors: Vec<String> = Vec::new();
    assert(string_views(errors@) =~= Seq::<Seq<char>>::empty());
    if given.path {
        push_message(
            &mut errors,
            String::from_str("simple webhook path input cannot be combined with --config"),
        );
    }
    let ghost a = string_views(errors@);
    if given.organizers {
        push_message(
            &mut errors,
            String::from_str("simple organizer filter inputs cannot be combined with --config"),
        );
    }
    let ghost b = string_views(errors@);
    if given.events {
        push_message(
            &mut errors,
            String::from_str("simple event filter inputs cannot be combined with --config"),
        );
    }
    let ghost c = string_views(errors@);
    if given.credentials {
        push_message(
            &mut errors,
            String::from_str("simple credential inputs cannot be combined with --config"),
        );
    }
    assert(string_views(errors@) =~= conflict_errors(*given));
    errors
}

/// The prefix in effect; a document prefix that an overriding one replaces
/// is still checked, and reported when invalid.
fn resolve_prefix(
    overriding_prefix: Option<&str>,
    file_prefix: Option<&str>,
    errors: &mut Vec<String>,
) -> (res: String)
    ensures
        res@ == effective_prefix(opt_str_view(overriding_prefix), opt_str_view(file_prefix)),
        string_views(final(errors)@) == string_views(old(errors)@) + message_if(
            overriding_prefix is Some && file_prefix is Some && !is_valid_absolute_path(
                file_prefix->0@,
            ),
            "overridden TOML prefix is invalid: "@ + prefix_message(file_prefix->0@),
        ),
{
    let ghost before = string_views(errors@);
    match overriding_prefix {
        None => {
            assert(string_views(errors@) =~= before + Seq::<Seq<char>>::empty());
            match file_prefix {
                Some(f) => String::from_str(f),
                None => String::from_str("/webhook"),
            }
        },
        Some(o) => {
            match file_prefix {
                Some(f) => match validate_webhook_prefix(f) {
                    Err(e) => {
                        let mut message = String::from_str("overridden TOML prefix is invalid: ");
                        message.append(e.message());
                        push_message(errors, message);
                        assert(string_views(errors@) =~= before + seq![message@]);
                    },
                    Ok(()) => {
                        assert(string_views(errors@) =~= before + Seq::<Seq<char>>::empty());
                    },
                },
                None => {
                    assert(string_views(errors@) =~= before + Seq::<Seq<char>>::empty());
                },
            }
            String::from_str(o)
        },
    }
}

/// Each problem prefixed by the route it belongs to.
pub open spec fn labelled(route: Seq<char>, problems: Seq<Option<Seq<char>>>) -> Seq<
    Option<Seq<char>>,
> {
    problems.map_values(
        |p: Option<Seq<char>>|
            match p {
                Some(m) => Some(route + ": "@ + m),
                None => None,
            },
    )
}

/// Why a credential reference of a route fails, if it does: its variable is
/// unset (or not Unicode), or its value is malformed. The value itself is
/// never quoted.
pub open spec fn reference_problem(route: Seq<char>, r: CredentialReference) -> Option<Seq<char>> {
    match r.value {
        None => Some(
            route + ": credential environment variable "@ + debug_text(r.variable@)
                + " is missing or not valid Unicode"@,
        ),
        Some(v) => match credential_problem(v@) {
            Some(e) => Some(
                route + ": credential environment variable "@ + debug_text(r.variable@)
                    + " is invalid: "@ + e,
            ),
            None => None,
        },
    }
}

/// The problems of each credential reference of a route.
pub open spec fn reference_problems(route: Seq<char>, refs: Seq<CredentialReference>) -> Seq<
    Option<Seq<char>>,
> {
    refs.map_values(|r: CredentialReference| reference_problem(route, r))
}

/// The digests of the credentials that resolve, in order.
pub open spec fn accepted_digests(refs: Seq<CredentialReference>) -> Seq<Seq<u8>>
    decreases refs.len(),
{
    if refs.len() == 0 {
        Seq::empty()
    } else {
        accepted_digests(refs.drop_last()) + match refs.last().value {
            Some(v) => if credential_problem(v@) is None {
                seq![credential_of(v@)]
            } else {
                Seq::empty()
            },
            None => Seq::empty(),
        }
    }
}

/// The environment variables a list of references names.
pub open spec fn reference_names(refs: Seq<CredentialReference>) -> Seq<Seq<char>> {
    refs.map_values(|r: CredentialReference| r.variable@)
}

/// The relative paths of the entries.
pub open spec fn entry_paths(entries: Seq<WebhookEntry>) -> Seq<Seq<char>> {
    entries.map_values(|w: WebhookEntry| w.path@)
}

/// `j` is the first position of `x` in `s`.
pub open spec fn is_first_index(s: Seq<Seq<char>>, x: Seq<char>, j: int) -> bool {
    0 <= j < s.len() && s[j] == x && forall|k: int| 0 <= k < j ==> s[k] != x
}

/// The first position of `x` in `s`, if any.
pub open spec fn first_index_of(s: Seq<Seq<char>>, x: Seq<char>) -> Option<int> {
    if exists|j: int| is_first_index(s, x, j) {
        Some(choose|j: int| is_first_index(s, x, j))
    } else {
        None
    }
}

/// The problems of the relative path of entry `i` (numbered `i + 1`): the
/// path is invalid, or an earlier entry already uses it.
pub open spec fn route_errors(prefix: Seq<char>, entries: Seq<WebhookEntry>, i: int) -> Seq<
    Seq<char>,
> {
    let number = (i + 1) as nat;
    let relative = entries[i].path@;
    message_if(
        !is_valid_relative_path(relative),
        entry_label(number) + ": "@ + path_error_message(
            "relative webhook path"@,
            relative,
            relative_path_problem(relative)->0,
        ),
    ) + (if is_valid_relative_path(relative) {
        match first_index_of(entry_paths(entries).take(i), relative) {
            Some(j) => seq![
                duplicate_route_message(number, (j + 1) as nat, resolved_path(prefix, relative)),
            ],
            None => Seq::empty(),
        }
    } else {
        Seq::empty()
    })
}

/// The problems of entry `i` (numbered `i + 1`), in the order they are
/// reported: its relative path, a route an earlier entry already uses,
/// repeated slugs and variable names, then each invalid filter value and
/// each failing credential reference.
#[verifier::opaque]
pub open spec fn entry_errors(prefix: Seq<char>, entries: Seq<WebhookEntry>, i: int) -> Seq<
    Seq<char>,
> {
    let w = entries[i];
    let number = (i + 1) as nat;
    let route = route_label(number, resolved_path(prefix, w.path@));
    route_errors(prefix, entries, i) + message_if(
        !string_views(w.allow_organizers@).no_duplicates(),
        entry_label(number) + ": "@ + "duplicate organizer slug"@,
    ) + message_if(
        !string_views(w.allow_events@).no_duplicates(),
        entry_label(number) + ": "@ + "duplicate event slug"@,
    ) + message_if(
        !reference_names(w.credential_env@).no_duplicates(),
        entry_label(number) + ": "@ + "duplicate credential environment-variable name"@,
    ) + present(labelled(route, filter_problems("organizer"@, string_views(w.allow_organizers@))))
        + present(labelled(route, filter_problems("event"@, string_views(w.allow_events@))))
        + present(reference_problems(route, w.credential_env@))
}

proof fn lemma_present_step(problems: Seq<Option<Seq<char>>>, k: int)
    requires
        0 <= k < problems.len(),
    ensures
        present(problems.take(k + 1)) == present(problems.take(k)) + match problems[k] {
            Some(m) => seq![m],
            None => Seq::<Seq<char>>::empty(),
        },
{
    assert(problems.take(k + 1).drop_last() =~= problems.take(k));
}

/// Reports each invalid filter value of a route.
fn push_filter_errors(route: &str, kind: &str, values: &Vec<String>, errors: &mut Vec<String>)
    ensures
        string_views(final(errors)@) == string_views(old(errors)@) + present(
            labelled(route@, filter_problems(kind@, string_views(values@))),
        ),
{
    let ghost before = string_views(errors@);
    let ghost problems = labelled(route@, filter_problems(kind@, string_views(values@)));
    let mut i: usize = 0;
    assert(before + present(problems.take(0)) =~= before);
    while i < values.len()
        invariant
            i <= values@.len(),
            problems == labelled(route@, filter_problems(kind@, string_views(values@))),
            string_views(errors@) == before + present(problems.take(i as int)),
        decreases values@.len() - i,
    {
        proof {
            lemma_present_step(problems, i as int);
            assert(string_views(values@)[i as int] == values@[i as int]@);
        }
        match crate::builder::validate_filter(kind, values[i].as_str()) {
            Err(e) => {
                let mut message = String::from_str(route);
                message.append(": ");
                message.append(e.message());
                push_message(errors, message);
                assert(before + present(problems.take(i + 1)) =~= (before + present(
                    problems.take(i as int),
                )).push(message@));
            },
            Ok(()) => {
                assert(before + present(problems.take(i + 1)) =~= before + present(
                    problems.take(i as int),
                ));
            },
        }
        i = i + 1;
    }
    assert(problems.take(values@.len() as int) =~= problems);
}

/// Resolves a route's credential references, reporting each that fails;
/// diagnostics name the route and the variable but never its value.
fn resolve_credentials(
    references: &Vec<CredentialReference>,
    route: &str,
    errors: &mut Vec<String>,
) -> (res: Vec<BasicAuthCredential>)
    ensures
        string_views(final(errors)@) == string_views(old(errors)@) + present(
            reference_problems(route@, references@),
        ),
        digests_of(res@) == accepted_digests(references@),
{
    let ghost before = string_views(errors@);
    let ghost problems = reference_problems(route@, references@);
    let mut credentials: Vec<BasicAuthCredential> = Vec::new();
    let mut i: usize = 0;
    assert(before + present(problems.take(0)) =~= before);
    assert(references@.take(0) =~= Seq::<CredentialReference>::empty());
    assert(digests_of(credentials@) =~= Seq::<Seq<u8>>::empty());
    while i < references.len()
        invariant
            i <= references@.len(),
            problems == reference_problems(route@, references@),
            string_views(errors@) == before + present(problems.take(i as int)),
            digests_of(credentials@) == accepted_digests(references@.take(i as int)),
        decreases references@.len() - i,
    {
        proof {
            lemma_present_step(problems, i as int);
            assert(references@.take(i + 1).drop_last() =~= references@.take(i as int));
        }
        let reference = &references[i];
        let ghost before_credentials = credentials@;
        match &reference.value {
            None => {
                let mut message = String::from_str(route);
                message.append(": credential environment variable ");
                let quoted = debug_str(reference.variable.as_str());
                message.append(quoted.as_str());
                message.append(" is missing or not valid Unicode");
                push_message(errors, message);
                assert(before + present(problems.take(i + 1)) =~= (before + present(
                    problems.take(i as int),
                )).push(message@));
                assert(accepted_digests(references@.take(i + 1)) =~= accepted_digests(
                    references@.take(i as int),
                ));
            },
            Some(value) => match parse_credential(value.as_str()) {
                Ok(credential) => {
                    credentials.push(credential);
                    assert(digests_of(credentials@) =~= digests_of(before_credentials).push(
                        credential@,
                    ));
                    assert(accepted_digests(references@.take(i + 1)) =~= accepted_digests(
                        references@.take(i as int),
                    ).push(credential_of(value@)));
                    assert(before + present(problems.take(i + 1)) =~= before + present(
                        problems.take(i as int),
                    ));
                },
                Err(error) => {
                    let mut message = String::from_str(route);
                    message.append(": credential environment variable ");
                    let quoted = debug_str(reference.variable.as_str());
                    message.append(quoted.as_str());
                    message.append(" is invalid: ");
                    message.append(error.as_str());
                    push_message(errors, message);
                    assert(before + present(problems.take(i + 1)) =~= (before + present(
                        problems.take(i as int),
                    )).push(message@));
                    assert(accepted_digests(references@.take(i + 1)) =~= accepted_digests(
                        references@.take(i as int),
                    ));
                },
            },
        }
        i = i + 1;
    }
    assert(problems.take(references@.len() as int) =~= problems);
    assert(references@.take(references@.len() as int) =~= references@);
    credentials
}

/// The environment variable names of a list of references.
fn reference_name_list(references: &Vec<CredentialReference>) -> (res: Vec<String>)
    ensures
        string_views(res@) == reference_names(references@),
{
    let mut names: Vec<String> = Vec::new();
    let mut i: usize = 0;
    while i < references.len()
        invariant
            i <= references@.len(),
            string_views(names@) == reference_names(references@).take(i as int),
        decreases references@.len() - i,
    {
        let ghost before = string_views(names@);
        let name = String::from_str(references[i].variable.as_str());
        names.push(name);
        assert(string_views(names@) =~= before.push(name@));
        assert(reference_names(references@).take(i + 1) =~= reference_names(references@).take(
            i as int,
        ).push(references@[i as int].variable@));
        i = i + 1;
    }
    assert(reference_names(references@).take(references@.len() as int) =~= reference_names(
        references@,
    ));
    names
}

/// Reports an entry whose relative path an earlier entry already uses,
/// naming that earlier entry.
fn duplicate_route_error(
    entries: &Vec<WebhookEntry>,
    index: usize,
    resolved_path: Option<&str>,
) -> (res: Option<String>)
    requires
        index < entries@.len(),
    ensures
        match first_index_of(entry_paths(entries@).take(index as int), entries@[index as int].path@) {
            Some(j) => res matches Some(m) && m@ == duplicate_route_message(
                (index + 1) as nat,
                (j + 1) as nat,
                opt_str_view(resolved_path),
            ),
            None => res is None,
        },
{
    let ghost paths = entry_paths(entries@).take(index as int);
    let ghost x = entries@[index as int].path@;
    let count = entries.len();
    let mut j: usize = 0;
    while j < index
        invariant
            j <= index < entries@.len(),
            count == entries@.len(),
            paths == entry_paths(entries@).take(index as int),
            x == entries@[index as int].path@,
            forall|k: int| 0 <= k < j ==> paths[k] != x,
        decreases index - j,
    {
        if str_eq(entries[j].path.as_str(), entries[index].path.as_str()) {
            assert(is_first_index(paths, x, j as int));
            assert forall|k: int| is_first_index(paths, x, k) implies k == j by {
                if k < j {
                    assert(paths[k] != x);
                } else if k > j {
                    assert(paths[j as int] == x);
                }
            }
            let number = index + 1;
            let first = j + 1;
            let mut message = String::from_str("webhooks entry ");
            let n = decimal(number);
            message.append(n.as_str());
            let f = decimal(first);
            match resolved_path {
                Some(p) => {
                    message.append(": duplicate resolved webhook path ");
                    let quoted = debug_str(p);
                    message.append(quoted.as_str());
                    message.append(" (first used by entry ");
                    message.append(f.as_str());
                    message.append(")");
                },
                None => {
                    message.append(": duplicate webhook route (first used by entry ");
                    message.append(f.as_str());
                    message.append("; resolved path unavailable because the prefix is invalid)");
                },
            }
            return Some(message);
        }
        j = j + 1;
    }
    assert(!exists|k: int| is_first_index(paths, x, k)) by {
        if exists|k: int| is_first_index(paths, x, k) {
            let k = choose|k: int| is_first_index(paths, x, k);
            assert(paths[k] != x);
        }
    }
    None
}

/// `webhooks entry N`.
fn entry_label_text(number: usize) -> (res: String)
    ensures
        res@ == entry_label(number as nat),
{
    let mut label = String::from_str("webhooks entry ");
    let n = decimal(number);
    label.append(n.as_str());
    label
}

/// `webhooks entry N: ` followed by `detail`.
fn entry_message(number: usize, detail: &str) -> (res: String)
    ensures
        res@ == entry_label(number as nat) + ": "@ + detail@,
{
    let mut message = entry_label_text(number);
    message.append(": ");
    message.append(detail);
    message
}

proof fn lemma_add_assoc(a: Seq<Seq<char>>, b: Seq<Seq<char>>, c: Seq<Seq<char>>)
    ensures
        (a + b) + c == a + (b + c),
{
    assert((a + b) + c =~= a + (b + c));
}

/// Appends `message` when `cond` holds.
fn push_if(errors: &mut Vec<String>, cond: bool, message: String)
    ensures
        string_views(final(errors)@) == string_views(old(errors)@) + message_if(cond, message@),
{
    let ghost before = string_views(errors@);
    if cond {
        push_message(errors, message);
        assert(before.push(message@) =~= before + seq![message@]);
    } else {
        assert(before =~= before + Seq::<Seq<char>>::empty());
    }
}

/// Checks an entry's relative path and whether an earlier entry uses it;
/// returns the path it resolves to, when it does.
fn check_entry_route(
    prefix: &str,
    prefix_is_valid: bool,
    entries: &Vec<WebhookEntry>,
    index: usize,
    errors: &mut Vec<String>,
) -> (res: Option<String>)
    requires
        index < entries@.len(),
        prefix_is_valid == is_valid_absolute_path(prefix@),
    ensures
        string_views(final(errors)@) == string_views(old(errors)@) + route_errors(
            prefix@,
            entries@,
            index as int,
        ),
        opt_view(res) == resolved_path(prefix@, entries@[index as int].path@),
{
    let count = entries.len();
    let webhook = &entries[index];
    let route_number = index + 1;
    let ghost before = string_views(errors@);
    let relative_path_is_valid = match validate_relative_webhook_path(webhook.path.as_str()) {
        Ok(()) => true,
        Err(error) => {
            push_message(errors, entry_message(route_number, error.message()));
            false
        },
    };
    let ghost p1 = message_if(
        !is_valid_relative_path(webhook.path@),
        entry_label(route_number as nat) + ": "@ + path_error_message(
            "relative webhook path"@,
            webhook.path@,
            relative_path_problem(webhook.path@)->0,
        ),
    );
    assert(string_views(errors@) =~= before + p1);
    let path: Option<String> = if prefix_is_valid && relative_path_is_valid {
        match resolve_webhook_path(prefix, webhook.path.as_str()) {
            Ok(p) => Some(p),
            Err(_) => None,
        }
    } else {
        None
    };
    let resolved: Option<&str> = match &path {
        Some(p) => Some(p.as_str()),
        None => None,
    };
    let ghost s1 = string_views(errors@);
    if relative_path_is_valid {
        match duplicate_route_error(entries, index, resolved) {
            Some(e) => {
                push_message(errors, e);
                assert(s1.push(e@) =~= s1 + seq![e@]);
            },
            None => {
                assert(s1 =~= s1 + Seq::<Seq<char>>::empty());
            },
        }
    } else {
        assert(s1 =~= s1 + Seq::<Seq<char>>::empty());
    }
    let ghost p2 = if is_valid_relative_path(webhook.path@) {
        match first_index_of(entry_paths(entries@).take(index as int), webhook.path@) {
            Some(j) => seq![
                duplicate_route_message(
                    route_number as nat,
                    (j + 1) as nat,
                    resolved_path(prefix@, webhook.path@),
                ),
            ],
            None => Seq::<Seq<char>>::empty(),
        }
    } else {
        Seq::<Seq<char>>::empty()
    };
    assert(string_views(errors@) == s1 + p2);
    proof {
        lemma_add_assoc(before, p1, p2);
    }
    path
}

/// Checks one entry, reporting each of its problems; returns the path it
/// resolves to (when it does) and the credentials that resolve.
#[verifier::spinoff_prover]
fn check_entry(
    prefix: &str,
    prefix_is_valid: bool,
    entries: &Vec<WebhookEntry>,
    index: usize,
    errors: &mut Vec<String>,
) -> (res: (Option<String>, Vec<BasicAuthCredential>))
    requires
        index < entries@.len(),
        prefix_is_valid == is_valid_absolute_path(prefix@),
    ensures
        string_views(final(errors)@) == string_views(old(errors)@) + entry_errors(
            prefix@,
            entries@,
            index as int,
        ),
        opt_view(res.0) == resolved_path(prefix@, entries@[index as int].path@),
        digests_of(res.1@) == accepted_digests(entries@[index as int].credential_env@),
{
    let count = entries.len();
    let route_number = index + 1;
    let ghost number = route_number as nat;
    let ghost w = entries@[index as int];
    let ghost before = string_views(errors@);
    let path = check_entry_route(prefix, prefix_is_valid, entries, index, errors);
    let ghost s2 = string_views(errors@);
    let webhook = &entries[index];
    let dup_organizers = contains_duplicates(&webhook.allow_organizers);
    push_if(errors, dup_organizers, entry_message(route_number, "duplicate organizer slug"));
    let ghost s3 = string_views(errors@);
    let dup_events = contains_duplicates(&webhook.allow_events);
    push_if(errors, dup_events, entry_message(route_number, "duplicate event slug"));
    let ghost s4 = string_views(errors@);
    let names = reference_name_list(&webhook.credential_env);
    let dup_names = contains_duplicates(&names);
    push_if(
        errors,
        dup_names,
        entry_message(route_number, "duplicate credential environment-variable name"),
    );
    let ghost s5 = string_views(errors@);
    let resolved: Option<&str> = match &path {
        Some(p) => Some(p.as_str()),
        None => None,
    };
    let route = route_context(route_number, resolved);
    push_filter_errors(route.as_str(), "organizer", &webhook.allow_organizers, errors);
    let ghost s6 = string_views(errors@);
    push_filter_errors(route.as_str(), "event", &webhook.allow_events, errors);
    let ghost s7 = string_views(errors@);
    let credentials = resolve_credentials(&webhook.credential_env, route.as_str(), errors);
    proof {
        let x = route_errors(prefix@, entries@, index as int);
        let route_v = route_label(number, resolved_path(prefix@, w.path@));
        assert(route@ == route_v);
        let p3 = message_if(
            !string_views(w.allow_organizers@).no_duplicates(),
            entry_label(number) + ": "@ + "duplicate organizer slug"@,
        );
        let p4 = message_if(
            !string_views(w.allow_events@).no_duplicates(),
            entry_label(number) + ": "@ + "duplicate event slug"@,
        );
        let p5 = message_if(
            !reference_names(w.credential_env@).no_duplicates(),
            entry_label(number) + ": "@ + "duplicate credential environment-variable name"@,
        );
        let p6 = present(
            labelled(route_v, filter_problems("organizer"@, string_views(w.allow_organizers@))),
        );
        let p7 = present(
            labelled(route_v, filter_problems("event"@, string_views(w.allow_events@))),
        );
        let p8 = present(reference_problems(route_v, w.credential_env@));
        lemma_add_assoc(before, x, p3);
        lemma_add_assoc(before, x + p3, p4);
        lemma_add_assoc(before, x + p3 + p4, p5);
        lemma_add_assoc(before, x + p3 + p4 + p5, p6);
        lemma_add_assoc(before, x + p3 + p4 + p5 + p6, p7);
        lemma_add_assoc(before, x + p3 + p4 + p5 + p6 + p7, p8);
        assert(entry_errors(prefix@, entries@, index as int) == x + p3 + p4 + p5 + p6 + p7 + p8)
            by {
            reveal(entry_errors);
        }
    }
    (path, credentials)
}

/// The problems of the first `n` entries, in order.
pub open spec fn entries_errors(prefix: Seq<char>, entries: Seq<WebhookEntry>, n: int) -> Seq<
    Seq<char>,
>
    decreases n,
{
    if n <= 0 {
        Seq::empty()
    } else {
        entries_errors(prefix, entries, n - 1) + entry_errors(prefix, entries, n - 1)
    }
}

/// Every semantic problem of a configuration document, in the order they
/// are reported: conflicting simple-mode settings, a document without
/// entries, the prefixes, then each entry's problems.
pub open spec fn multi_errors(
    given: SimpleModeInputs,
    overriding: Option<Seq<char>>,
    file: Option<Seq<char>>,
    entries: Seq<WebhookEntry>,
) -> Seq<Seq<char>> {
    conflict_errors(given) + message_if(
        entries.len() == 0,
        "at least one [[webhooks]] entry is required"@,
    ) + prefix_errors(overriding, file) + entries_errors(
        effective_prefix(overriding, file),
        entries,
        entries.len() as int,
    )
}

/// The endpoint a valid entry describes: each slug allowed once, in the
/// order first given.
pub open spec fn multi_endpoint_view(prefix: Seq<char>, w: WebhookEntry) -> EndpointView {
    EndpointView {
        path: joined_path(prefix, w.path@),
        policy: PolicyView {
            organizers: distinct_in_order(string_views(w.allow_organizers@)),
            events: distinct_in_order(string_views(w.allow_events@)),
            credentials: accepted_digests(w.credential_env@),
            body_limit: DEFAULT_BODY_LIMIT,
        },
        unrestricted: w.allow_organizers@.len() == 0 && w.allow_events@.len() == 0,
        unauthenticated: w.credential_env@.len() == 0,
    }
}

proof fn lemma_entries_errors_empty(prefix: Seq<char>, entries: Seq<WebhookEntry>, n: int)
    requires
        0 <= n,
        entries_errors(prefix, entries, n).len() == 0,
    ensures
        forall|k: int| 0 <= k < n ==> #[trigger] entry_errors(prefix, entries, k).len() == 0,
    decreases n,
{
    if n > 0 {
        lemma_entries_errors_empty(prefix, entries, n - 1);
    }
}

proof fn lemma_present_empty(problems: Seq<Option<Seq<char>>>)
    requires
        present(problems).len() == 0,
    ensures
        forall|i: int| 0 <= i < problems.len() ==> #[trigger] problems[i] is None,
    decreases problems.len(),
{
    if problems.len() > 0 {
        lemma_present_empty(problems.drop_last());
        assert forall|i: int| 0 <= i < problems.len() implies #[trigger] problems[i] is None by {
            if i < problems.len() - 1 {
                assert(problems.drop_last()[i] == problems[i]);
            }
        }
    }
}

proof fn lemma_first_problem_none(problems: Seq<Option<Seq<char>>>)
    requires
        forall|i: int| 0 <= i < problems.len() ==> #[trigger] problems[i] is None,
    ensures
        first_problem(problems) is None,
    decreases problems.len(),
{
    if problems.len() > 0 {
        assert forall|i: int| 0 <= i < problems.len() - 1 implies #[trigger] problems.drop_last()[i]
            is None by {
            assert(problems.drop_last()[i] == problems[i]);
        }
        lemma_first_problem_none(problems.drop_last());
        assert(problems[problems.len() - 1] is None);
    }
}

/// When no filter value of a route is reported, none is invalid.
proof fn lemma_no_filter_problem(route: Seq<char>, kind: Seq<char>, values: Seq<Seq<char>>)
    requires
        present(labelled(route, filter_problems(kind, values))).len() == 0,
    ensures
        first_problem(filter_problems(kind, values)) is None,
{
    let problems = filter_problems(kind, values);
    lemma_present_empty(labelled(route, problems));
    assert forall|i: int| 0 <= i < problems.len() implies #[trigger] problems[i] is None by {
        assert(labelled(route, problems)[i] is None);
    }
    lemma_first_problem_none(problems);
}

/// What an entry without problems satisfies.
proof fn lemma_valid_entry(prefix: Seq<char>, entries: Seq<WebhookEntry>, k: int)
    requires
        0 <= k < entries.len(),
        entry_errors(prefix, entries, k).len() == 0,
    ensures
        is_valid_relative_path(entries[k].path@),
        string_views(entries[k].allow_organizers@).no_duplicates(),
        string_views(entries[k].allow_events@).no_duplicates(),
        first_problem(filter_problems("organizer"@, string_views(entries[k].allow_organizers@)))
            is None,
        first_problem(filter_problems("event"@, string_views(entries[k].allow_events@))) is None,
        all_references_resolve(entries[k].credential_env@),
{
    reveal(entry_errors);
    let w = entries[k];
    let route = route_label((k + 1) as nat, resolved_path(prefix, w.path@));
    lemma_no_filter_problem(route, "organizer"@, string_views(w.allow_organizers@));
    lemma_no_filter_problem(route, "event"@, string_views(w.allow_events@));
    let problems = reference_problems(route, w.credential_env@);
    lemma_present_empty(problems);
    assert forall|i: int| 0 <= i < w.credential_env@.len() implies #[trigger] reference_resolves(
        w.credential_env@[i],
    ) by {
        assert(problems[i] is None);
    }
}

/// Turns validated entries into endpoints.
fn build_effective_endpoints(
    prefix: &str,
    entries: &Vec<WebhookEntry>,
    validated: Vec<(Option<String>, Vec<BasicAuthCredential>)>,
) -> (res: Vec<EffectiveEndpoint>)
    requires
        validated@.len() == entries@.len(),
        forall|k: int|
            0 <= k < entries@.len() ==> opt_view(#[trigger] validated@[k].0) == Some(
                joined_path(prefix@, entries@[k].path@),
            ),
        forall|k: int|
            0 <= k < entries@.len() ==> digests_of(#[trigger] validated@[k].1@) == accepted_digests(
                entries@[k].credential_env@,
            ),
        forall|k: int|
            0 <= k < entries@.len() ==> {
                &&& first_problem(
                    filter_problems("organizer"@, string_views(#[trigger] entries@[k].allow_organizers@)),
                ) is None
                &&& first_problem(filter_problems("event"@, string_views(entries@[k].allow_events@)))
                    is None
            },
    ensures
        res@.len() == entries@.len(),
        forall|k: int|
            0 <= k < entries@.len() ==> (#[trigger] res@[k])@ == multi_endpoint_view(
                prefix@,
                entries@[k],
            ),
{
    let ghost all = validated@;
    let mut rest = validated;
    let mut endpoints: Vec<EffectiveEndpoint> = Vec::new();
    let mut i: usize = 0;
    while i < entries.len()
        invariant
            i <= entries@.len(),
            all.len() == entries@.len(),
            rest@ == all.subrange(i as int, all.len() as int),
            endpoints@.len() == i,
            forall|k: int|
                0 <= k < entries@.len() ==> opt_view(#[trigger] all[k].0) == Some(
                    joined_path(prefix@, entries@[k].path@),
                ),
            forall|k: int|
                0 <= k < entries@.len() ==> digests_of(#[trigger] all[k].1@) == accepted_digests(
                    entries@[k].credential_env@,
                ),
            forall|k: int|
                0 <= k < entries@.len() ==> {
                    &&& first_problem(
                        filter_problems("organizer"@, string_views(#[trigger] entries@[k].allow_organizers@)),
                    ) is None
                    &&& first_problem(
                        filter_problems("event"@, string_views(entries@[k].allow_events@)),
                    ) is None
                },
            forall|k: int|
                0 <= k < i ==> (#[trigger] endpoints@[k])@ == multi_endpoint_view(
                    prefix@,
                    entries@[k],
                ),
        decreases entries@.len() - i,
    {
        let (path, credentials) = rest.remove(0);
        assert(all[i as int] == (path, credentials));
        let webhook = &entries[i];
        assert(first_problem(filter_problems("organizer"@, string_views(webhook.allow_organizers@))) is None);
        let unrestricted = webhook.allow_organizers.len() == 0 && webhook.allow_events.len() == 0;
        let unauthenticated = webhook.credential_env.len() == 0;
        let mut webhook_config = match builder_with_filters(
            &webhook.allow_organizers,
            &webhook.allow_events,
        ) {
            Ok(b) => b,
            Err(_) => WebhookServiceBuilder::new(),
        };
        if !unauthenticated {
            webhook_config = webhook_config.require_basic_auth(credentials);
        } else {
            assert(accepted_digests(webhook.credential_env@) =~= Seq::<Seq<u8>>::empty());
        }
        let path = match path {
            Some(p) => p,
            None => String::new(),
        };
        let endpoint = EffectiveEndpoint { path, webhook_config, unrestricted, unauthenticated };
        assert(endpoint@ == multi_endpoint_view(prefix@, entries@[i as int]));
        endpoints.push(endpoint);
        i = i + 1;
    }
    endpoints
}

/// Resolves a configuration document into its endpoints, or reports every
/// semantic problem it has at once.
///
/// `given` tells which simple-mode settings were also given; each entry's
/// credential references come with the values of the variables they name.
pub fn multi_endpoints(
    given: &SimpleModeInputs,
    overriding_prefix: Option<&str>,
    file_prefix: Option<&str>,
    entries: &Vec<WebhookEntry>,
) -> (res: Result<Vec<EffectiveEndpoint>, EndpointError>)
    ensures
        res is Ok <==> multi_errors(
            *given,
            opt_str_view(overriding_prefix),
            opt_str_view(file_prefix),
            entries@,
        ).len() == 0,
        res is Err ==> (res matches Err(EndpointError::InvalidToml(m)) && m@ == validation_report(
            multi_errors(
                *given,
                opt_str_view(overriding_prefix),
                opt_str_view(file_prefix),
                entries@,
            ),
        )),
        res matches Ok(endpoints) ==> endpoints@.len() == entries@.len() && forall|k: int|
            0 <= k < entries@.len() ==> (#[trigger] endpoints@[k])@ == multi_endpoint_view(
                effective_prefix(opt_str_view(overriding_prefix), opt_str_view(file_prefix)),
                entries@[k],
            ),
        res matches Ok(endpoints) ==> forall|k: int|
            0 <= k < entries@.len() ==> {
                &&& all_references_resolve(#[trigger] entries@[k].credential_env@)
                &&& endpoints@[k]@.unrestricted == (endpoints@[k]@.policy.organizers.len() == 0
                    && endpoints@[k]@.policy.events.len() == 0)
                &&& endpoints@[k]@.unauthenticated == (endpoints@[k]@.policy.credentials.len()
                    == 0)
                &&& forall|j: int|
                    0 <= j < entries@[k].credential_env@.len()
                        ==> endpoints@[k]@.policy.credentials.contains(
                        credential_of(#[trigger] entries@[k].credential_env@[j].value->0@),
                    )
            },
{
    let ghost overriding = opt_str_view(overriding_prefix);
    let ghost file = opt_str_view(file_prefix);
    let mut errors = multi_mode_conflict_errors(given);
    let no_entries = entries.len() == 0;
    push_if(
        &mut errors,
        no_entries,
        String::from_str("at least one [[webhooks]] entry is required"),
    );
    let ghost s1 = string_views(errors@);
    let prefix = resolve_prefix(overriding_prefix, file_prefix, &mut errors);
    let ghost s2 = string_views(errors@);
    let prefix_is_valid = match validate_webhook_prefix(prefix.as_str()) {
        Ok(()) => {
            assert(s2 =~= s2 + Seq::<Seq<char>>::empty());
            true
        },
        Err(error) => {
            push_message(&mut errors, error.to_string());
            assert(s2.push(error@) =~= s2 + seq![error@]);
            false
        },
    };
    let ghost base = string_views(errors@);
    proof {
        lemma_add_assoc(
            s1,
            message_if(
                overriding is Some && file is Some && !is_valid_absolute_path(file->0),
                "overridden TOML prefix is invalid: "@ + prefix_message(file->0),
            ),
            message_if(
                !is_valid_absolute_path(effective_prefix(overriding, file)),
                prefix_message(effective_prefix(overriding, file)),
            ),
        );
        assert(base == s1 + prefix_errors(overriding, file));
        assert(base + entries_errors(prefix@, entries@, 0) =~= base);
    }
    let mut validated: Vec<(Option<String>, Vec<BasicAuthCredential>)> = Vec::new();
    let mut i: usize = 0;
    while i < entries.len()
        invariant
            i <= entries@.len(),
            prefix_is_valid == is_valid_absolute_path(prefix@),
            string_views(errors@) == base + entries_errors(prefix@, entries@, i as int),
            validated@.len() == i,
            forall|k: int|
                0 <= k < i ==> opt_view(#[trigger] validated@[k].0) == resolved_path(
                    prefix@,
                    entries@[k].path@,
                ),
            forall|k: int|
                0 <= k < i ==> digests_of(#[trigger] validated@[k].1@) == accepted_digests(
                    entries@[k].credential_env@,
                ),
        decreases entries@.len() - i,
    {
        let ghost before = string_views(errors@);
        let checked = check_entry(prefix.as_str(), prefix_is_valid, entries, i, &mut errors);
        proof {
            lemma_add_assoc(
                base,
                entries_errors(prefix@, entries@, i as int),
                entry_errors(prefix@, entries@, i as int),
            );
        }
        validated.push(checked);
        i = i + 1;
    }
    assert(string_views(errors@) == multi_errors(*given, overriding, file, entries@));
    if errors.len() > 0 {
        return Err(EndpointError::InvalidToml(format_validation_errors(&errors)));
    }
    proof {
        assert(is_valid_absolute_path(prefix@));
        lemma_entries_errors_empty(prefix@, entries@, entries@.len() as int);
        assert forall|k: int| 0 <= k < entries@.len() implies {
            &&& first_problem(
                filter_problems("organizer"@, string_views(#[trigger] entries@[k].allow_organizers@)),
            ) is None
            &&& first_problem(filter_problems("event"@, string_views(entries@[k].allow_events@)))
                is None
        } by {
            assert(entry_errors(prefix@, entries@, k).len() == 0);
            lemma_valid_entry(prefix@, entries@, k);
        }
        assert forall|k: int| 0 <= k < entries@.len() implies opt_view(#[trigger] validated@[k].0)
            == Some(joined_path(prefix@, entries@[k].path@)) by {
            assert(entry_errors(prefix@, entries@, k).len() == 0);
            lemma_valid_entry(prefix@, entries@, k);
        }
    }
    let endpoints = build_effective_endpoints(prefix.as_str(), entries, validated);
    proof {
        assert forall|k: int| 0 <= k < entries@.len() implies all_references_resolve(
            #[trigger] entries@[k].credential_env@,
        ) by {
            assert(entry_errors(prefix@, entries@, k).len() == 0);
            lemma_valid_entry(prefix@, entries@, k);
        }
        assert forall|k: int| 0 <= k < entries@.len() implies {
            &&& endpoints@[k]@.unrestricted == (endpoints@[k]@.policy.organizers.len() == 0
                && endpoints@[k]@.policy.events.len() == 0)
            &&& endpoints@[k]@.unauthenticated == (endpoints@[k]@.policy.credentials.len() == 0)
            &&& forall|j: int|
                0 <= j < entries@[k].credential_env@.len()
                    ==> endpoints@[k]@.policy.credentials.contains(
                    credential_of(#[trigger] entries@[k].credential_env@[j].value->0@),
                )
        } by {
            assert(all_references_resolve(entries@[k].credential_env@));
            assert(endpoints@[k]@ == multi_endpoint_view(prefix@, entries@[k]));
            lemma_multi_report_follows_policy(prefix@, entries@[k]);
        }
    }
    Ok(endpoints)
}

/// Accepts a simple-mode webhook path that follows the static path grammar,
/// or gives the grammar's message for it.
pub fn parse_path(value: &str) -> (res: Result<String, String>)
    ensures
        res is Ok <==> is_valid_absolute_path(value@),
        res matches Ok(p) ==> p@ == value@,
        res matches Err(e) ==> e@ == path_error_message(
            "absolute webhook path"@,
            value@,
            absolute_path_problem(value@)->0,
        ),
{
    match validate_absolute_webhook_path(value) {
        Ok(()) => Ok(String::from_str(value)),
        Err(error) => Err(error.to_string()),
    }
}

/// Simple-mode settings cannot be combined with a configuration document:
/// any of them makes the document's resolution fail.
pub proof fn lemma_simple_inputs_exclude_documents(
    given: SimpleModeInputs,
    overriding: Option<Seq<char>>,
    file: Option<Seq<char>>,
    entries: Seq<WebhookEntry>,
)
    requires
        given.path || given.organizers || given.events || given.credentials,
    ensures
        multi_errors(given, overriding, file, entries).len() > 0,
{
}

/// A simple-mode endpoint without filters is reported unrestricted, and its
/// policy lets every payload through.
pub proof fn lemma_simple_without_filters_is_unrestricted(
    path: Option<Seq<char>>,
    credentials: Seq<Seq<u8>>,
    event: crate::events::WebhookEvent,
)
    ensures
        simple_endpoint_view(path, Seq::empty(), Seq::empty(), credentials).unrestricted,
        crate::builder::policy_allows(
            simple_endpoint_view(path, Seq::empty(), Seq::empty(), credentials).policy,
            event,
        ),
{
}

/// An omitted simple-mode path and an explicit `/webhook` describe the same
/// endpoint.
pub proof fn lemma_default_path_is_webhook(
    organizers: Seq<Seq<char>>,
    events: Seq<Seq<char>>,
    credentials: Seq<Seq<u8>>,
)
    ensures
        simple_endpoint_view(None, organizers, events, credentials) == simple_endpoint_view(
            Some("/webhook"@),
            organizers,
            events,
            credentials,
        ),
{
}

/// A diagnostic about a credential value never quotes the value: it is one
/// of two fixed messages.
pub proof fn lemma_credential_problem_hides_value(value: Seq<char>)
    ensures
        credential_problem(value) is None || credential_problem(value) == Some(
            "expected USERNAME:PASSWORD"@,
        ) || credential_problem(value) == Some("username and password must be non-empty"@),
{
}

/// A diagnostic about a credential reference names the route and the
/// variable, never the value: two values rejected for the same reason give
/// the same message.
pub proof fn lemma_reference_problem_hides_value(
    route: Seq<char>,
    a: CredentialReference,
    b: CredentialReference,
)
    requires
        a.variable@ == b.variable@,
        a.value is Some == b.value is Some,
        a.value is Some ==> credential_problem(a.value->0@) == credential_problem(b.value->0@),
    ensures
        reference_problem(route, a) == reference_problem(route, b),
{
}

proof fn lemma_entry_within_entries(prefix: Seq<char>, entries: Seq<WebhookEntry>, n: int, k: int, m: Seq<char>)
    requires
        0 <= k < n,
        entry_errors(prefix, entries, k).contains(m),
    ensures
        entries_errors(prefix, entries, n).contains(m),
    decreases n,
{
    let whole = entries_errors(prefix, entries, n);
    let head = entries_errors(prefix, entries, n - 1);
    let last = entry_errors(prefix, entries, n - 1);
    if k == n - 1 {
        let i = choose|i: int| 0 <= i < last.len() && last[i] == m;
        assert(whole[head.len() + i] == m);
    } else {
        lemma_entry_within_entries(prefix, entries, n - 1, k, m);
        let i = choose|i: int| 0 <= i < head.len() && head[i] == m;
        assert(whole[i] == m);
    }
}

/// Problems are reported together: every problem of every entry is in the
/// report of the document, whatever the other entries hold.
pub proof fn lemma_every_entry_problem_reported(
    given: SimpleModeInputs,
    overriding: Option<Seq<char>>,
    file: Option<Seq<char>>,
    entries: Seq<WebhookEntry>,
    k: int,
    m: Seq<char>,
)
    requires
        0 <= k < entries.len(),
        entry_errors(effective_prefix(overriding, file), entries, k).contains(m),
    ensures
        multi_errors(given, overriding, file, entries).contains(m),
{
    let prefix = effective_prefix(overriding, file);
    lemma_entry_within_entries(prefix, entries, entries.len() as int, k, m);
    let tail = entries_errors(prefix, entries, entries.len() as int);
    let all = multi_errors(given, overriding, file, entries);
    let i = choose|i: int| 0 <= i < tail.len() && tail[i] == m;
    assert(all[all.len() - tail.len() + i] == m);
}

/// Two filter lists that differ only in their texts: as long, with each
/// position as valid and as empty in both, and equal positions in one equal
/// in the other.
pub open spec fn same_filter_shape(a: Seq<Seq<char>>, b: Seq<Seq<char>>) -> bool {
    &&& a.len() == b.len()
    &&& forall|i: int|
        0 <= i < a.len() ==> is_valid_filter_value(#[trigger] a[i]) == is_valid_filter_value(b[i])
            && (a[i].len() == 0) == (b[i].len() == 0)
    &&& forall|i: int, j: int|
        0 <= i < a.len() && 0 <= j < a.len() ==> (#[trigger] a[i] == #[trigger] a[j]) == (b[i]
            == b[j])
}

/// Two credential reference lists that differ only in the values of the
/// variables: the same variables, each set in both or in neither, and each
/// value rejected for the same reason, if at all.
pub open spec fn same_reference_shape(a: Seq<CredentialReference>, b: Seq<CredentialReference>) -> bool {
    &&& a.len() == b.len()
    &&& forall|i: int|
        0 <= i < a.len() ==> {
            &&& (#[trigger] a[i]).variable@ == b[i].variable@
            &&& (a[i].value is Some) == (b[i].value is Some)
            &&& a[i].value is Some ==> credential_problem(a[i].value->0@) == credential_problem(
                b[i].value->0@,
            )
        }
}

/// Two documents that differ only in their filter slugs and credential
/// values, in the sense of [`same_filter_shape`] and
/// [`same_reference_shape`], entry by entry.
pub open spec fn same_document_shape(a: Seq<WebhookEntry>, b: Seq<WebhookEntry>) -> bool {
    &&& a.len() == b.len()
    &&& forall|i: int|
        0 <= i < a.len() ==> {
            &&& (#[trigger] a[i]).path@ == b[i].path@
            &&& same_filter_shape(string_views(a[i].allow_organizers@), string_views(b[i].allow_organizers@))
            &&& same_filter_shape(string_views(a[i].allow_events@), string_views(b[i].allow_events@))
            &&& same_reference_shape(a[i].credential_env@, b[i].credential_env@)
        }
}

proof fn lemma_same_filter_shape(kind: Seq<char>, route: Seq<char>, a: Seq<Seq<char>>, b: Seq<Seq<char>>)
    requires
        same_filter_shape(a, b),
    ensures
        filter_problems(kind, a) == filter_problems(kind, b),
        labelled(route, filter_problems(kind, a)) == labelled(route, filter_problems(kind, b)),
        a.no_duplicates() == b.no_duplicates(),
{
    assert(filter_problems(kind, a) =~= filter_problems(kind, b)) by {
        assert forall|i: int| 0 <= i < a.len() implies filter_problems(kind, a)[i]
            == filter_problems(kind, b)[i] by {
            assert(is_valid_filter_value(a[i]) == is_valid_filter_value(b[i]));
        }
    }
    if a.no_duplicates() {
        assert forall|i: int, j: int| 0 <= i < b.len() && 0 <= j < b.len() && i != j implies b[i]
            != b[j] by {
            assert((a[i] == a[j]) == (b[i] == b[j]));
        }
    }
    if b.no_duplicates() {
        assert forall|i: int, j: int| 0 <= i < a.len() && 0 <= j < a.len() && i != j implies a[i]
            != a[j] by {
            assert((a[i] == a[j]) == (b[i] == b[j]));
        }
    }
}

proof fn lemma_same_reference_shape(route: Seq<char>, a: Seq<CredentialReference>, b: Seq<CredentialReference>)
    requires
        same_reference_shape(a, b),
    ensures
        reference_problems(route, a) == reference_problems(route, b),
        reference_names(a) == reference_names(b),
{
    assert(reference_problems(route, a) =~= reference_problems(route, b)) by {
        assert forall|i: int| 0 <= i < a.len() implies reference_problems(route, a)[i]
            == reference_problems(route, b)[i] by {
            assert(a[i].variable@ == b[i].variable@);
        }
    }
    assert(reference_names(a) =~= reference_names(b)) by {
        assert forall|i: int| 0 <= i < a.len() implies reference_names(a)[i]
            == reference_names(b)[i] by {
            assert(a[i].variable@ == b[i].variable@);
        }
    }
}

proof fn lemma_same_entry_errors(prefix: Seq<char>, a: Seq<WebhookEntry>, b: Seq<WebhookEntry>, k: int)
    requires
        same_document_shape(a, b),
        0 <= k < a.len(),
    ensures
        entry_errors(prefix, a, k) == entry_errors(prefix, b, k),
{
    reveal(entry_errors);
    assert(a[k].path@ == b[k].path@);
    assert(entry_paths(a) =~= entry_paths(b)) by {
        assert forall|i: int| 0 <= i < a.len() implies entry_paths(a)[i] == entry_paths(b)[i] by {
            assert(a[i].path@ == b[i].path@);
        }
    }
    assert(route_errors(prefix, a, k) == route_errors(prefix, b, k));
    let route = route_label((k + 1) as nat, resolved_path(prefix, a[k].path@));
    lemma_same_filter_shape(
        "organizer"@,
        route,
        string_views(a[k].allow_organizers@),
        string_views(b[k].allow_organizers@),
    );
    lemma_same_filter_shape(
        "event"@,
        route,
        string_views(a[k].allow_events@),
        string_views(b[k].allow_events@),
    );
    lemma_same_reference_shape(route, a[k].credential_env@, b[k].credential_env@);
}

proof fn lemma_same_entries_errors(prefix: Seq<char>, a: Seq<WebhookEntry>, b: Seq<WebhookEntry>, n: int)
    requires
        same_document_shape(a, b),
        0 <= n <= a.len(),
    ensures
        entries_errors(prefix, a, n) == entries_errors(prefix, b, n),
    decreases n,
{
    if n > 0 {
        lemma_same_entries_errors(prefix, a, b, n - 1);
        lemma_same_entry_errors(prefix, a, b, n - 1);
    }
}

/// Diagnostics never reveal filter slugs or credential values: two
/// documents that differ only in those (with each slug as valid, as empty
/// and as repeated, and each value rejected for the same reason) are both
/// accepted, or both refused with the same report.
pub proof fn lemma_diagnostics_hide_policy_values(
    given: SimpleModeInputs,
    overriding: Option<Seq<char>>,
    file: Option<Seq<char>>,
    a: Seq<WebhookEntry>,
    b: Seq<WebhookEntry>,
)
    requires
        same_document_shape(a, b),
    ensures
        multi_errors(given, overriding, file, a) == multi_errors(given, overriding, file, b),
        validation_report(multi_errors(given, overriding, file, a)) == validation_report(
            multi_errors(given, overriding, file, b),
        ),
{
    lemma_same_entries_errors(effective_prefix(overriding, file), a, b, a.len() as int);
}

/// Simple-mode diagnostics never reveal filter slugs or credential values:
/// settings that differ only in those (with each slug as valid, as empty and
/// as repeated, and each credential entry rejected for the same reason) are
/// judged the same.
pub proof fn lemma_simple_diagnostics_hide_policy_values(
    organizers: (Seq<Seq<char>>, Seq<Seq<char>>),
    events: (Seq<Seq<char>>, Seq<Seq<char>>),
    credentials: (Seq<Seq<char>>, Seq<Seq<char>>),
)
    requires
        same_filter_shape(organizers.0, organizers.1),
        same_filter_shape(events.0, events.1),
        credentials.0.len() == credentials.1.len(),
        forall|i: int|
            0 <= i < credentials.0.len() ==> credential_problem(#[trigger] credentials.0[i])
                == credential_problem(credentials.1[i]),
    ensures
        simple_problem(organizers.0, events.0, credentials.0) == simple_problem(
            organizers.1,
            events.1,
            credentials.1,
        ),
{
    lemma_same_filter_shape("organizer"@, Seq::empty(), organizers.0, organizers.1);
    lemma_same_filter_shape("event"@, Seq::empty(), events.0, events.1);
    assert(credential_problems(credentials.0) =~= credential_problems(credentials.1)) by {
        assert forall|i: int| 0 <= i < credentials.0.len() implies credential_problems(
            credentials.0,
        )[i] == credential_problems(credentials.1)[i] by {
            assert(credential_problem(credentials.0[i]) == credential_problem(credentials.1[i]));
        }
    }
}

/// What the environment holds for a variable.
pub enum EnvironmentValue {
    /// The variable is not set.
    Unset,
    /// The variable holds this text.
    Text(String),
    /// The variable is set but is not valid Unicode.
    NotUnicode,
}

/// The entries an environment value gives to a list setting: none when
/// unset, its `;`-separated pieces when set.
pub open spec fn environment_entries(value: EnvironmentValue) -> Seq<Seq<char>> {
    match value {
        EnvironmentValue::Text(t) => split_on(t@, ';'),
        _ => Seq::empty(),
    }
}

/// Why reading an environment value fails, when it is read.
pub open spec fn environment_problem(variable: Seq<char>, read: bool, value: EnvironmentValue) -> Option<
    Seq<char>,
> {
    if read && value is NotUnicode {
        Some("environment variable "@ + debug_text(variable) + " is not valid Unicode"@)
    } else {
        None
    }
}

/// The settings given on the command line, with the environment values
/// that stand in for the list flags when those are absent.
pub struct CommandLineSettings {
    pub prefix: Option<String>,
    pub path: Option<String>,
    pub organizers: Vec<String>,
    pub events: Vec<String>,
    pub credentials: Vec<BasicAuthCredential>,
    pub organizers_environment: EnvironmentValue,
    pub events_environment: EnvironmentValue,
    pub credentials_environment: EnvironmentValue,
}

/// The settings once each list is taken from its flags or, when no flag was
/// given, from its environment variable; credential entries from the
/// environment are kept unparsed.
pub struct ResolvedSettings {
    pub prefix: Option<String>,
    pub path: Option<String>,
    pub organizers: Vec<String>,
    pub events: Vec<String>,
    pub credentials: Vec<BasicAuthCredential>,
    pub environment_credentials: Vec<String>,
}

/// The first problem of reading the environment values that stand in for
/// absent flags, in the order organizers, events, credentials.
pub open spec fn settings_problem(s: CommandLineSettings) -> Option<Seq<char>> {
    first_problem(
        seq![
            environment_problem(
                "PRETIX_WEBHOOK_ALLOW_ORGANIZERS"@,
                s.organizers@.len() == 0,
                s.organizers_environment,
            ),
            environment_problem(
                "PRETIX_WEBHOOK_ALLOW_EVENTS"@,
                s.events@.len() == 0,
                s.events_environment,
            ),
            environment_problem(
                "PRETIX_WEBHOOK_CREDENTIALS"@,
                s.credentials@.len() == 0,
                s.credentials_environment,
            ),
        ],
    )
}

/// The entries of a list setting: its flags when any was given, else its
/// environment value.
pub open spec fn list_entries(flags: Seq<Seq<char>>, value: EnvironmentValue) -> Seq<Seq<char>> {
    if flags.len() > 0 {
        flags
    } else {
        environment_entries(value)
    }
}

/// Reads a list setting: its flag values when any was given, else the
/// entries of its environment variable.
fn list_setting(variable: &str, flags: Vec<String>, environment: &EnvironmentValue) -> (res: Result<
    Vec<String>,
    String,
>)
    ensures
        res is Err <==> environment_problem(variable@, flags@.len() == 0, *environment) is Some,
        res matches Err(m) ==> environment_problem(variable@, flags@.len() == 0, *environment)
            == Some(m@),
        res matches Ok(v) ==> string_views(v@) == list_entries(string_views(flags@), *environment),
{
    if flags.len() > 0 {
        return Ok(flags);
    }
    assert(string_views(flags@).len() == 0);
    match environment {
        EnvironmentValue::Unset => Ok(semicolon_list(None)),
        EnvironmentValue::Text(t) => Ok(semicolon_list(Some(t.as_str()))),
        EnvironmentValue::NotUnicode => {
            let mut message = String::from_str("environment variable ");
            let quoted = debug_str(variable);
            message.append(quoted.as_str());
            message.append(" is not valid Unicode");
            Err(message)
        },
    }
}

/// Takes each list setting from its flags or, when none was given, from its
/// environment variable, in the order organizers, events, credentials; the
/// credential entries of the environment are read only when no credential
/// flag was given.
pub fn resolve_settings(settings: CommandLineSettings) -> (res: Result<
    ResolvedSettings,
    EndpointError,
>)
    ensures
        res is Ok <==> settings_problem(settings) is None,
        res is Err ==> (res matches Err(EndpointError::InvalidSimple(m)) && settings_problem(settings)
            == Some(m@)),
        res matches Ok(r) ==> {
            &&& opt_view(r.prefix) == opt_view(settings.prefix)
            &&& opt_view(r.path) == opt_view(settings.path)
            &&& string_views(r.organizers@) == list_entries(
                string_views(settings.organizers@),
                settings.organizers_environment,
            )
            &&& string_views(r.events@) == list_entries(
                string_views(settings.events@),
                settings.events_environment,
            )
            &&& digests_of(r.credentials@) == digests_of(settings.credentials@)
            &&& string_views(r.environment_credentials@) == if settings.credentials@.len() > 0 {
                Seq::empty()
            } else {
                environment_entries(settings.credentials_environment)
            }
        },
{
    let ghost original = settings;
    let CommandLineSettings {
        prefix,
        path,
        organizers,
        events,
        credentials,
        organizers_environment,
        events_environment,
        credentials_environment,
    } = settings;
    let ghost problems = seq![
        environment_problem(
            "PRETIX_WEBHOOK_ALLOW_ORGANIZERS"@,
            organizers@.len() == 0,
            organizers_environment,
        ),
        environment_problem("PRETIX_WEBHOOK_ALLOW_EVENTS"@, events@.len() == 0, events_environment),
        environment_problem(
            "PRETIX_WEBHOOK_CREDENTIALS"@,
            credentials@.len() == 0,
            credentials_environment,
        ),
    ];
    assert(settings_problem(original) == first_problem(problems));
    proof {
        reveal_with_fuel(first_problem, 4);
        assert(problems.drop_last().drop_last().drop_last() =~= Seq::<Option<Seq<char>>>::empty());
        assert(problems.drop_last().last() == problems[1]);
        assert(problems.drop_last().drop_last().last() == problems[0]);
    }
    let organizers = match list_setting(
        "PRETIX_WEBHOOK_ALLOW_ORGANIZERS",
        organizers,
        &organizers_environment,
    ) {
        Ok(v) => v,
        Err(m) => return Err(EndpointError::InvalidSimple(m)),
    };
    let events = match list_setting("PRETIX_WEBHOOK_ALLOW_EVENTS", events, &events_environment) {
        Ok(v) => v,
        Err(m) => return Err(EndpointError::InvalidSimple(m)),
    };
    let environment_credentials = if credentials.len() > 0 {
        let none: Vec<String> = Vec::new();
        assert(string_views(none@) =~= Seq::<Seq<char>>::empty());
        none
    } else {
        match list_setting("PRETIX_WEBHOOK_CREDENTIALS", Vec::new(), &credentials_environment) {
            Ok(v) => v,
            Err(m) => return Err(EndpointError::InvalidSimple(m)),
        }
    };
    Ok(ResolvedSettings { prefix, path, organizers, events, credentials, environment_credentials })
}

/// Which simple-mode settings resolved settings hold.
pub open spec fn given_inputs(r: ResolvedSettings) -> SimpleModeInputs {
    SimpleModeInputs {
        path: r.path is Some,
        organizers: r.organizers@.len() > 0,
        events: r.events@.len() > 0,
        credentials: r.credentials@.len() > 0 || r.environment_credentials@.len() > 0,
    }
}

/// Which simple-mode settings resolved settings hold.
fn simple_inputs_of(settings: &ResolvedSettings) -> (res: SimpleModeInputs)
    ensures
        res == given_inputs(*settings),
{
    SimpleModeInputs {
        path: settings.path.is_some(),
        organizers: settings.organizers.len() > 0,
        events: settings.events.len() > 0,
        credentials: settings.credentials.len() > 0 || settings.environment_credentials.len() > 0,
    }
}

/// Resolves settings without a configuration document into the one
/// endpoint of simple mode.
pub fn simple_mode(settings: ResolvedSettings) -> (res: Result<Vec<EffectiveEndpoint>, EndpointError>)
    ensures
        res matches Err(EndpointError::MixedMode(m)) ==> settings.prefix is Some && m@
            == "--prefix and PRETIX_WEBHOOK_PREFIX require --config"@,
        res matches Err(EndpointError::InvalidSimple(m)) ==> settings.prefix is None
            && simple_problem(
            string_views(settings.organizers@),
            string_views(settings.events@),
            string_views(settings.environment_credentials@),
        ) == Some(m@),
        !(res matches Err(EndpointError::InvalidToml(_))),
        res is Ok <==> settings.prefix is None && simple_problem(
            string_views(settings.organizers@),
            string_views(settings.events@),
            string_views(settings.environment_credentials@),
        ) is None,
        res matches Ok(endpoints) ==> endpoints@.len() == 1 && endpoints@[0]@
            == simple_endpoint_view(
            opt_view(settings.path),
            string_views(settings.organizers@),
            string_views(settings.events@),
            digests_of(settings.credentials@) + credentials_of(
                string_views(settings.environment_credentials@),
            ),
        ),
{
    let ResolvedSettings { prefix, path, organizers, events, credentials, environment_credentials } =
        settings;
    match simple_endpoint(
        prefix.is_some(),
        path,
        &organizers,
        &events,
        credentials,
        &environment_credentials,
    ) {
        Ok(endpoint) => Ok(vec![endpoint]),
        Err(e) => Err(e),
    }
}

/// Resolves a configuration document together with the other settings into
/// the endpoints of multi mode; any simple-mode setting is a conflict.
pub fn multi_mode(
    settings: &ResolvedSettings,
    file_prefix: Option<&str>,
    entries: &Vec<WebhookEntry>,
) -> (res: Result<Vec<EffectiveEndpoint>, EndpointError>)
    ensures
        res is Ok <==> multi_errors(
            given_inputs(*settings),
            opt_view(settings.prefix),
            opt_str_view(file_prefix),
            entries@,
        ).len() == 0,
        res is Err ==> (res matches Err(EndpointError::InvalidToml(m)) && m@ == validation_report(
            multi_errors(
                given_inputs(*settings),
                opt_view(settings.prefix),
                opt_str_view(file_prefix),
                entries@,
            ),
        )),
        res matches Ok(endpoints) ==> endpoints@.len() == entries@.len() && forall|k: int|
            0 <= k < entries@.len() ==> (#[trigger] endpoints@[k])@ == multi_endpoint_view(
                effective_prefix(opt_view(settings.prefix), opt_str_view(file_prefix)),
                entries@[k],
            ),
{
    let given = simple_inputs_of(settings);
    let overriding: Option<&str> = match &settings.prefix {
        Some(p) => Some(p.as_str()),
        None => None,
    };
    multi_endpoints(&given, overriding, file_prefix, entries)
}

/// The reference's variable is set and holds a valid `USERNAME:PASSWORD`.
pub open spec fn reference_resolves(r: CredentialReference) -> bool {
    r.value is Some && credential_problem(r.value->0@) is None
}

/// Every reference of a list resolves.
pub open spec fn all_references_resolve(refs: Seq<CredentialReference>) -> bool {
    forall|i: int| 0 <= i < refs.len() ==> #[trigger] reference_resolves(refs[i])
}

/// Every credential reference that resolves contributes its pair's digest:
/// all the credentials a route names are accepted, not only some of them.
pub proof fn lemma_resolved_references_accepted(refs: Seq<CredentialReference>, k: int)
    requires
        0 <= k < refs.len(),
        reference_resolves(refs[k]),
    ensures
        accepted_digests(refs).contains(credential_of(refs[k].value->0@)),
    decreases refs.len(),
{
    let init = refs.drop_last();
    let d = credential_of(refs[k].value->0@);
    if k == refs.len() - 1 {
        let head = accepted_digests(init);
        assert(accepted_digests(refs) == head + seq![d]);
        assert(accepted_digests(refs)[head.len() as int] == d);
    } else {
        assert(init[k] == refs[k]);
        lemma_resolved_references_accepted(init, k);
        let head = accepted_digests(init);
        let j = choose|j: int| 0 <= j < head.len() && head[j] == d;
        assert(accepted_digests(refs)[j] == d);
    }
}

/// Every accepted digest comes from a credential reference that resolves.
pub proof fn lemma_accepted_digests_come_from_references(refs: Seq<CredentialReference>, d: Seq<u8>)
    requires
        accepted_digests(refs).contains(d),
    ensures
        exists|k: int|
            0 <= k < refs.len() && reference_resolves(#[trigger] refs[k]) && credential_of(
                refs[k].value->0@,
            ) == d,
    decreases refs.len(),
{
    let init = refs.drop_last();
    let head = accepted_digests(init);
    let all = accepted_digests(refs);
    let j = choose|j: int| 0 <= j < all.len() && all[j] == d;
    if j < head.len() {
        assert(head[j] == d);
        lemma_accepted_digests_come_from_references(init, d);
        let k = choose|k: int|
            0 <= k < init.len() && reference_resolves(#[trigger] init[k]) && credential_of(
                init[k].value->0@,
            ) == d;
        assert(init[k] == refs[k]);
    } else {
        assert(refs[refs.len() - 1] == refs.last());
    }
}

/// When every reference resolves, each contributes one digest, in order.
pub proof fn lemma_all_references_counted(refs: Seq<CredentialReference>)
    requires
        all_references_resolve(refs),
    ensures
        accepted_digests(refs).len() == refs.len(),
        forall|k: int|
            0 <= k < refs.len() ==> #[trigger] accepted_digests(refs)[k] == credential_of(
                refs[k].value->0@,
            ),
    decreases refs.len(),
{
    if refs.len() > 0 {
        let init = refs.drop_last();
        assert forall|i: int| 0 <= i < init.len() implies #[trigger] reference_resolves(init[i]) by {
            assert(init[i] == refs[i]);
            assert(reference_resolves(refs[i]));
        }
        lemma_all_references_counted(init);
        assert(reference_resolves(refs[refs.len() - 1]));
        assert forall|k: int| 0 <= k < refs.len() implies #[trigger] accepted_digests(refs)[k]
            == credential_of(refs[k].value->0@) by {
            if k < init.len() {
                assert(init[k] == refs[k]);
                assert(accepted_digests(init)[k] == credential_of(init[k].value->0@));
            }
        }
    }
}

proof fn lemma_distinct_in_order_empty(s: Seq<Seq<char>>)
    ensures
        (distinct_in_order(s).len() == 0) == (s.len() == 0),
    decreases s.len(),
{
    if s.len() > 0 {
        let d = distinct_in_order(s.drop_last());
        if !d.contains(s.last()) {
            assert(insert_once(d, s.last()).len() == d.len() + 1);
        } else {
            assert(d.len() > 0);
        }
    }
}

/// A simple-mode endpoint is reported unrestricted exactly when its policy
/// has neither organizer nor event filters, and unauthenticated exactly when
/// it accepts no credential.
pub proof fn lemma_simple_report_follows_policy(
    path: Option<Seq<char>>,
    organizers: Seq<Seq<char>>,
    events: Seq<Seq<char>>,
    credentials: Seq<Seq<u8>>,
)
    ensures
        ({
            let v = simple_endpoint_view(path, organizers, events, credentials);
            &&& v.unrestricted == (v.policy.organizers.len() == 0 && v.policy.events.len() == 0)
            &&& v.unauthenticated == (v.policy.credentials.len() == 0)
        }),
{
}

/// An endpoint of a valid entry is reported unrestricted exactly when its
/// policy has neither organizer nor event filters, unauthenticated exactly
/// when it accepts no credential, and it accepts the credential of every
/// reference.
pub proof fn lemma_multi_report_follows_policy(prefix: Seq<char>, w: WebhookEntry)
    requires
        all_references_resolve(w.credential_env@),
    ensures
        ({
            let v = multi_endpoint_view(prefix, w);
            &&& v.unrestricted == (v.policy.organizers.len() == 0 && v.policy.events.len() == 0)
            &&& v.unauthenticated == (v.policy.credentials.len() == 0)
            &&& forall|k: int|
                0 <= k < w.credential_env@.len() ==> v.policy.credentials.contains(
                    credential_of(#[trigger] w.credential_env@[k].value->0@),
                )
        }),
{
    lemma_distinct_in_order_empty(string_views(w.allow_organizers@));
    lemma_distinct_in_order_empty(string_views(w.allow_events@));
    lemma_all_references_counted(w.credential_env@);
    assert forall|k: int| 0 <= k < w.credential_env@.len() implies accepted_digests(
        w.credential_env@,
    ).contains(credential_of(#[trigger] w.credential_env@[k].value->0@)) by {
        assert(reference_resolves(w.credential_env@[k]));
        lemma_resolved_references_accepted(w.credential_env@, k);
    }
}

} // verus!
