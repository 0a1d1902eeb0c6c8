//! What the receiver reports about its endpoints when it starts: each route,
//! then a warning for each route that has no filters or no credentials.
use vstd::prelude::*;
use vstd::string::*;

use crate::endpoint::{EffectiveEndpoint, EndpointView};

verus! {

/// One startup report line about a route, naming its path.
#[derive(Clone, Debug, PartialEq, Eq)]
pub enum StartupNotice {
    /// The route is configured.
    Route(String),
    /// The route has neither organizer nor event filters.
    Unrestricted(String),
    /// The route has no HTTP Basic credentials.
    Unauthenticated(String),
}

/// The view of a [`StartupNotice`].
pub enum NoticeView {
    Route(Seq<char>),
    Unrestricted(Seq<char>),
    Unauthenticated(Seq<char>),
}

impl View for StartupNotice {
    type V = NoticeView;

    open spec fn view(&self) -> NoticeView {
        match self {
            StartupNotice::Route(p) => NoticeView::Route(p@),
            StartupNotice::Unrestricted(p) => NoticeView::Unrestricted(p@),
            StartupNotice::Unauthenticated(p) => NoticeView::Unauthenticated(p@),
        }
    }
}

/// The text of a notice.
pub open spec fn notice_text(n: NoticeView) -> Seq<char> {
    match n {
        NoticeView::Route(p) => "pretix webhook route configured at "@ + p,
        NoticeView::Unrestricted(p) => "warning: no filters configured for "@ + p
            + "; accepting all events from all organizers"@,
        NoticeView::Unauthenticated(p) => "warning: no HTTP Basic credentials configured for "@ + p
            + "; accepting unauthenticated requests"@,
    }
}

/// The warnings that apply to one endpoint, in order.
pub open spec fn endpoint_warnings(e: EndpointView) -> Seq<NoticeView> {
    (if e.unrestricted {
        seq![NoticeView::Unrestricted(e.path)]
    } else {
        Seq::empty()
    }) + (if e.unauthenticated {
        seq![NoticeView::Unauthenticated(e.path)]
    } else {
        Seq::empty()
    })
}

/// The warnings of a list of endpoints, endpoint by endpoint.
pub open spec fn warnings_of(endpoints: Seq<EndpointView>) -> Seq<NoticeView>
    decreases endpoints.len(),
{
    if endpoints.len() == 0 {
        Seq::empty()
    } else {
        warnings_of(endpoints.drop_last()) + endpoint_warnings(endpoints.last())
    }
}

/// The views of a list of endpoints.
pub open spec fn endpoint_views(endpoints: Seq<EffectiveEndpoint>) -> Seq<EndpointView> {
    endpoints.map_values(|e: EffectiveEndpoint| e@)
}

/// The views of a list of notices.
pub open spec fn notice_views(notices: Seq<StartupNotice>) -> Seq<NoticeView> {
    notices.map_values(|n: StartupNotice| n@)
}

/// Every route is announced, then every applicable warning is given.
pub open spec fn startup_report(endpoints: Seq<EndpointView>) -> Seq<NoticeView> {
    endpoints.map_values(|e: EndpointView| NoticeView::Route(e.path)) + warnings_of(endpoints)
}

impl StartupNotice {
    /// The text of the notice.
    pub fn text(&self) -> (res: String)
        ensures
            res@ == notice_text(self@),
    {
        match self {
            StartupNotice::Route(p) => {
                let mut text = String::from_str("pretix webhook route configured at ");
                text.append(p.as_str());
                text
            },
            StartupNotice::Unrestricted(p) => {
                let mut text = String::from_str("warning: no filters configured for ");
                text.append(p.as_str());
                text.append("; accepting all events from all organizers");
                text
            },
            StartupNotice::Unauthenticated(p) => {
                let mut text = String::from_str(
                    "warning: no HTTP Basic credentials configured for ",
                );
                text.append(p.as_str());
                text.append("; accepting unauthenticated requests");
                text
            },
        }
    }

    /// The path of the route the notice is about.
    pub fn route(&self) -> (res: &str)
        ensures
            res@ == match self@ {
                NoticeView::Route(p) => p,
                NoticeView::Unrestricted(p) => p,
                NoticeView::Unauthenticated(p) => p,
            },
    {
        match self {
            StartupNotice::Route(p) => p.as_str(),
            StartupNotice::Unrestricted(p) => p.as_str(),
            StartupNotice::Unauthenticated(p) => p.as_str(),
        }
    }

    /// A notice is a warning unless it only announces a route.
    pub fn is_warning(&self) -> (res: bool)
        ensures
            res == !(self@ is Route),
    {
        match self {
            StartupNotice::Route(_) => false,
            _ => true,
        }
    }
}

/// Appends `notice` to a report.
fn push_notice(notices: &mut Vec<StartupNotice>, notice: StartupNotice)
    ensures
        notice_views(final(notices)@) == notice_views(old(notices)@).push(notice@),
{
    let ghost before = notice_views(notices@);
    notices.push(notice);
    assert(notice_views(notices@) =~= before.push(notice@));
}

/// What the receiver reports about its endpoints when it starts.
pub fn startup_notices(endpoints: &Vec<EffectiveEndpoint>) -> (res: Vec<StartupNotice>)
    ensures
        notice_views(res@) == startup_report(endpoint_views(endpoints@)),
{
    let ghost views = endpoint_views(endpoints@);
    let ghost routes = views.map_values(|e: EndpointView| NoticeView::Route(e.path));
    let mut notices: Vec<StartupNotice> = Vec::new();
    let mut i: usize = 0;
    while i < endpoints.len()
        invariant
            i <= endpoints@.len(),
            views == endpoint_views(endpoints@),
            routes == views.map_values(|e: EndpointView| NoticeView::Route(e.path)),
            notice_views(notices@) == routes.take(i as int),
        decreases endpoints@.len() - i,
    {
        let path = String::from_str(endpoints[i].path());
        push_notice(&mut notices, StartupNotice::Route(path));
        assert(routes.take(i + 1) =~= routes.take(i as int).push(routes[i as int]));
        i = i + 1;
    }
    assert(routes.take(endpoints@.len() as int) =~= routes);
    let mut i: usize = 0;
    assert(routes + warnings_of(views.take(0)) =~= routes);
    while i < endpoints.len()
        invariant
            i <= endpoints@.len(),
            views == endpoint_views(endpoints@),
            routes == views.map_values(|e: EndpointView| NoticeView::Route(e.path)),
            notice_views(notices@) == routes + warnings_of(views.take(i as int)),
        decreases endpoints@.len() - i,
    {
        let ghost before = notice_views(notices@);
        let endpoint = &endpoints[i];
        assert(views[i as int] == endpoint@);
        assert(views.take(i + 1).drop_last() =~= views.take(i as int));
        if endpoint.is_unrestricted() {
            push_notice(&mut notices, StartupNotice::Unrestricted(String::from_str(endpoint.path())));
        }
        if endpoint.is_unauthenticated() {
            push_notice(
                &mut notices,
                StartupNotice::Unauthenticated(String::from_str(endpoint.path())),
            );
        }
        assert(notice_views(notices@) =~= before + endpoint_warnings(endpoint@));
        i = i + 1;
    }
    assert(views.take(endpoints@.len() as int) =~= views);
    notices
}

/// A warning is given exactly when it applies: the warnings of the report
/// are those of the endpoints, where an unrestricted route is warned about
/// as unrestricted and an unauthenticated one as unauthenticated.
pub proof fn lemma_warnings_apply(endpoints: Seq<EndpointView>, n: NoticeView)
    ensures
        warnings_of(endpoints).contains(n) <==> exists|i: int|
            0 <= i < endpoints.len() && #[trigger] endpoint_warnings(endpoints[i]).contains(n),
    decreases endpoints.len(),
{
    if endpoints.len() > 0 {
        let init = endpoints.drop_last();
        let whole = warnings_of(endpoints);
        let head = warnings_of(init);
        let last = endpoint_warnings(endpoints.last());
        lemma_warnings_apply(init, n);
        assert(whole == head + last);
        if whole.contains(n) {
            let j = choose|j: int| 0 <= j < whole.len() && whole[j] == n;
            if j < head.len() {
                assert(head[j] == n);
                let i = choose|i: int|
                    0 <= i < init.len() && #[trigger] endpoint_warnings(init[i]).contains(n);
                assert(init[i] == endpoints[i]);
            } else {
                assert(last[j - head.len()] == n);
                assert(endpoint_warnings(endpoints[endpoints.len() - 1]).contains(n));
            }
        }
        if exists|i: int|
            0 <= i < endpoints.len() && #[trigger] endpoint_warnings(endpoints[i]).contains(n) {
            let i = choose|i: int|
                0 <= i < endpoints.len() && #[trigger] endpoint_warnings(endpoints[i]).contains(n);
            if i < init.len() {
                assert(init[i] == endpoints[i]);
                assert(endpoint_warnings(init[i]).contains(n));
                let j = choose|j: int| 0 <= j < head.len() && head[j] == n;
                assert(whole[j] == n);
            } else {
                let j = choose|j: int| 0 <= j < last.len() && last[j] == n;
                assert(whole[head.len() + j] == n);
            }
        }
    }
}

} // verus!
