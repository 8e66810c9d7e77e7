use vstd::prelude::*;
use std::sync::Arc;
use crate::http::{internal_server_error, not_found, Error, PeerAddr, Request, RequestHead, Response, Body};
use crate::path::{method_matches, path_segments, route_captures, route_matches, PathMatch, Route};

verus! {

/// A route and the handler that serves the requests it matches.
pub struct Endpoint<H> {
    pub route: Route,
    pub handler: H,
}

impl<H> Endpoint<H> {
    fn new(route: Route, handler: H) -> (r: Endpoint<H>)
        ensures
            r.route == route,
            r.handler == handler,
    {
        Endpoint { route, handler }
    }
}

/// `i` is the first endpoint of `eps` whose route matches `req`.
pub open spec fn is_first_match<H>(eps: Seq<Endpoint<H>>, req: RequestHead, i: int) -> bool {
    &&& 0 <= i < eps.len()
    &&& route_matches(eps[i].route, req)
    &&& forall|j: int| 0 <= j < i ==> !route_matches(#[trigger] eps[j].route, req)
}

/// No endpoint of `eps` matches `req`.
pub open spec fn no_match<H>(eps: Seq<Endpoint<H>>, req: RequestHead) -> bool {
    forall|j: int| 0 <= j < eps.len() ==> !route_matches(#[trigger] eps[j].route, req)
}

/// First match wins: where endpoints `i` and `j > i` both match a request,
/// the endpoint that serves it comes no later than `i`, so never `j`; and it is
/// `i` itself where no endpoint before `i` matches.
pub proof fn lemma_first_match_wins<H>(eps: Seq<Endpoint<H>>, req: RequestHead, i: int, j: int)
    requires
        0 <= i < j < eps.len(),
        route_matches(eps[i].route, req),
        route_matches(eps[j].route, req),
    ensures
        forall|k: int| #[trigger] is_first_match(eps, req, k) ==> k <= i && k != j,
        (forall|k: int| 0 <= k < i ==> !route_matches(#[trigger] eps[k].route, req))
            ==> is_first_match(eps, req, i),
{
    assert forall|k: int| #[trigger] is_first_match(eps, req, k) implies k <= i && k != j by {
        if k > i {
            assert(!route_matches(eps[i].route, req));
        }
    }
}

/// A request that has another number of path segments than every route that
/// names its method (or any method) matches no endpoint, and so is answered
/// with 404 by `RouterService::call`.
pub proof fn lemma_unroutable_request<H>(eps: Seq<Endpoint<H>>, req: RequestHead)
    requires
        forall|k: int|
            0 <= k < eps.len() ==> !method_matches(#[trigger] eps[k].route.method, req.method)
                || eps[k].route.segments@.len() != path_segments(req.path@).len(),
    ensures
        no_match(eps, req),
{
}

/// The endpoints registered so far, in order of registration.
pub struct RouterBuilder<H> {
    endpoints: Vec<Endpoint<H>>,
}

impl<H> View for RouterBuilder<H> {
    type V = Seq<Endpoint<H>>;

    closed spec fn view(&self) -> Seq<Endpoint<H>> {
        self.endpoints@
    }
}

impl<H> RouterBuilder<H> {
    fn new() -> (r: RouterBuilder<H>)
        ensures
            r@ == Seq::<Endpoint<H>>::empty(),
    {
        RouterBuilder { endpoints: Vec::new() }
    }

    /// Registers `handler` under `route`, after every endpoint registered before.
    pub fn install(self, handler: H, route: Route) -> (r: RouterBuilder<H>)
        ensures
            r@ == self@.push(Endpoint { route, handler }),
    {
        let mut s = self;
        s.endpoints.push(Endpoint::new(route, handler));
        s
    }

    /// The registered routes, in order of registration.
    pub fn routes(&self) -> (r: Vec<&Route>)
        ensures
            r@.len() == self@.len(),
            forall|i: int| 0 <= i < r@.len() ==> *r@[i] == self@[i].route,
    {
        let mut out: Vec<&Route> = Vec::new();
        let mut i: usize = 0;
        while i < self.endpoints.len()
            invariant
                i <= self.endpoints@.len(),
                out@.len() == i,
                forall|k: int| 0 <= k < i ==> *out@[k] == self.endpoints@[k].route,
            decreases self.endpoints@.len() - i,
        {
            out.push(&self.endpoints[i].route);
            i = i + 1;
        }
        out
    }

    /// Freezes the registered endpoints, in the same order, into a router.
    pub fn build(self) -> (r: Router<H>)
        ensures
            r@ == self@,
    {
        Router::new(RouterInternal { endpoints: self.endpoints })
    }
}

/// The frozen table of endpoints.
pub struct RouterInternal<H> {
    endpoints: Vec<Endpoint<H>>,
}

impl<H> View for RouterInternal<H> {
    type V = Seq<Endpoint<H>>;

    closed spec fn view(&self) -> Seq<Endpoint<H>> {
        self.endpoints@
    }
}

impl<H> RouterInternal<H> {
    /// The first endpoint, in order of registration, whose route matches
    /// `req`, with what its route captured.
    pub fn route(&self, req: &RequestHead) -> (r: Option<(&Endpoint<H>, PathMatch)>)
        ensures
            r is None <==> no_match(self@, *req),
            r matches Some(p) ==> exists|i: int|
                #![trigger self@[i]]
                is_first_match(self@, *req, i) && *p.0 == self@[i] && p.1@ == route_captures(
                    self@[i].route,
                    *req,
                ),
    {
        let mut i: usize = 0;
        while i < self.endpoints.len()
            invariant
                i <= self.endpoints@.len(),
                forall|j: int| 0 <= j < i ==> !route_matches(#[trigger] self.endpoints@[j].route, *req),
            decreases self.endpoints@.len() - i,
        {
            match self.endpoints[i].route.matches(req) {
                Some(m) => {
                    assert(is_first_match(self@, *req, i as int));
                    return Some((&self.endpoints[i], m));
                },
                None => {},
            }
            i = i + 1;
        }
        None
    }
}

/// A router: the frozen table of endpoints, shared by every connection.
pub struct Router<H>(Arc<RouterInternal<H>>);

impl<H> View for Router<H> {
    type V = Seq<Endpoint<H>>;

    closed spec fn view(&self) -> Seq<Endpoint<H>> {
        (*self.0)@
    }
}

impl<H> Router<H> {
    fn new(router: RouterInternal<H>) -> (r: Router<H>)
        ensures
            r@ == router@,
    {
        Router(Arc::new(router))
    }

    pub fn builder() -> (r: RouterBuilder<H>)
        ensures
            r@ == Seq::<Endpoint<H>>::empty(),
    {
        RouterBuilder::new()
    }

    /// The dispatcher of one connection, whose peer is `addr` where known.
    pub fn service(&self, addr: Option<PeerAddr>) -> (r: RouterService<H>)
        ensures
            r@ == self@,
            r.client_addr() == addr,
    {
        RouterService::new(&self.0, addr)
    }
}

/// The dispatcher of one connection.
pub struct RouterService<H> {
    router: Arc<RouterInternal<H>>,
    client_addr: Option<PeerAddr>,
}

impl<H> View for RouterService<H> {
    type V = Seq<Endpoint<H>>;

    closed spec fn view(&self) -> Seq<Endpoint<H>> {
        (*self.router)@
    }
}

impl<H> RouterService<H> {
    pub closed spec fn client_addr(&self) -> Option<PeerAddr> {
        self.client_addr
    }

    fn new(router: &Arc<RouterInternal<H>>, addr: Option<PeerAddr>) -> (r: RouterService<H>)
        ensures
            r@ == (**router)@,
            r.client_addr() == addr,
    {
        RouterService { router: Arc::clone(router), client_addr: addr }
    }

    /// A dispatcher is ready for the next request at once.
    pub fn poll_ready(&self) -> (r: bool)
        ensures
            r,
    {
        true
    }

    /// Routes one request: the 404 response where no endpoint matches it;
    /// else the first matching endpoint, with the request as its handler is
    /// to see it.
    pub fn call(&self, req: RequestHead) -> (r: Result<(&Endpoint<H>, Request), Response>)
        ensures
            r is Err <==> no_match(self@, req),
            r matches Err(resp) ==> resp.status == 404 && resp.body.bytes().len() == 0,
            r matches Ok(p) ==> exists|i: int|
                #![trigger self@[i]]
                is_first_match(self@, req, i) && *p.0 == self@[i] && p.1.head == req
                    && p.1.client_addr == self.client_addr() && p.1.params@ == route_captures(
                    self@[i].route,
                    req,
                ),
    {
        let router: &RouterInternal<H> = &self.router;
        match router.route(&req) {
            None => Err(not_found().into_response()),
            Some((endpoint, matched)) => {
                let ghost i = choose|i: int|
                    #![trigger router@[i]]
                    is_first_match(router@, req, i) && *endpoint == router@[i] && matched@
                        == route_captures(router@[i].route, req);
                let ghost head = req;
                let nreq = Request::new(req, self.client_addr, matched);
                assert(self@[i] == router@[i]);
                assert(is_first_match(self@, head, i));
                Ok((endpoint, nreq))
            },
        }
    }
}

/// What a handler's run came to, with `None` for a run that failed without
/// returning: such a failure becomes an internal server error.
pub fn handle_panics(outcome: Option<Result<Response, Error>>) -> (r: Result<Response, Error>)
    ensures
        outcome matches Some(res) ==> r == res,
        outcome is None ==> (r matches Err(e) && e.status == 500 && e.message is None),
{
    match outcome {
        Some(res) => res,
        None => Err(internal_server_error()),
    }
}

/// The response that goes out for a handler's result: the response itself,
/// or the one that reports the error.
pub fn respond(result: Result<Response, Error>) -> (r: Response)
    ensures
        result matches Ok(resp) ==> r == resp,
        result matches Err(e) ==> r.status == e.status && (r.body matches Body::Full(b) && b@
            == crate::http::error_body(e.message)),
{
    match result {
        Ok(resp) => resp,
        Err(e) => e.into_response(),
    }
}

} // verus!
