//! The route model: how a named path is served and which endpoints a
//! benchmark run materializes for it.

use vstd::prelude::*;

verus! {

/// Opaque handle to one endpoint whose build output can be materialized to
/// persistent storage by the engine.
#[derive(Clone, Copy, PartialEq, Eq, Structural, Debug)]
pub struct EndpointId {
    pub id: u64,
}

/// One sub-route of an app page; only its html endpoint is materialized by
/// this driver.
pub struct AppPageRoute {
    pub original_name: String,
    pub html_endpoint: EndpointId,
    pub rsc_endpoint: EndpointId,
}

/// How a named path is served. `Conflict` marks a naming collision and owns
/// no endpoints.
pub enum Route {
    Page { html_endpoint: EndpointId, data_endpoint: EndpointId },
    PageApi { endpoint: EndpointId },
    AppPage(Vec<AppPageRoute>),
    AppRoute { original_name: String, endpoint: EndpointId },
    Conflict,
}

/// The endpoints a benchmark run materializes for a route, in order:
/// a page's html endpoint only (its data endpoint is intentionally skipped),
/// an api or app route's single endpoint, every html endpoint of an app
/// page's sub-routes in sequence, and nothing for a conflict.
pub open spec fn spec_route_endpoints(r: Route) -> Seq<EndpointId> {
    match r {
        Route::Page { html_endpoint, .. } => seq![html_endpoint],
        Route::PageApi { endpoint } => seq![endpoint],
        Route::AppPage(routes) => Seq::new(routes@.len(), |i: int| routes@[i].html_endpoint),
        Route::AppRoute { endpoint, .. } => seq![endpoint],
        Route::Conflict => Seq::empty(),
    }
}

pub open spec fn spec_is_conflict(r: Route) -> bool {
    r is Conflict
}

/// Route dispatch: the exact list of endpoints this run materializes for
/// `r`, in the order they are written to storage.
pub fn route_endpoints(r: &Route) -> (eps: Vec<EndpointId>)
    ensures
        eps@ == spec_route_endpoints(*r),
{
    match r {
        Route::Page { html_endpoint, .. } => {
            let mut v: Vec<EndpointId> = Vec::new();
            v.push(*html_endpoint);
            assert(v@ =~= spec_route_endpoints(*r));
            v
        }
        Route::PageApi { endpoint } => {
            let mut v: Vec<EndpointId> = Vec::new();
            v.push(*endpoint);
            assert(v@ =~= spec_route_endpoints(*r));
            v
        }
        Route::AppPage(routes) => {
            let mut v: Vec<EndpointId> = Vec::new();
            let mut i: usize = 0;
            while i < routes.len()
                invariant
                    i <= routes.len(),
                    v@.len() == i,
                    forall|j: int| 0 <= j < i ==> v@[j] == routes@[j].html_endpoint,
                decreases routes.len() - i,
            {
                v.push(routes[i].html_endpoint);
                i += 1;
            }
            assert(v@ =~= spec_route_endpoints(*r));
            v
        }
        Route::AppRoute { endpoint, .. } => {
            let mut v: Vec<EndpointId> = Vec::new();
            v.push(*endpoint);
            assert(v@ =~= spec_route_endpoints(*r));
            v
        }
        Route::Conflict => {
            let v: Vec<EndpointId> = Vec::new();
            assert(v@ =~= spec_route_endpoints(*r));
            v
        }
    }
}

/// Whether a route is a naming conflict, which is warned about and never
/// materialized.
pub fn is_conflict(r: &Route) -> (b: bool)
    ensures
        b == spec_is_conflict(*r),
{
    match r {
        Route::Conflict => true,
        _ => false,
    }
}

/// Path names are unique across a route mapping's entries.
pub open spec fn spec_names_unique(entries: Seq<(String, Route)>) -> bool {
    forall|i: int, j: int| 0 <= i < j < entries.len() ==> entries[i].0 != entries[j].0
}

/// The immutable route mapping of one configured project: unique path names,
/// each with the route that serves it, in the fixed order the run visits
/// them.
pub struct RouteTable {
    pub entries: Vec<(String, Route)>,
}

impl RouteTable {
    /// Path names are unique across the mapping.
    pub open spec fn wf(self) -> bool {
        spec_names_unique(self.entries@)
    }
}

} // verus!
