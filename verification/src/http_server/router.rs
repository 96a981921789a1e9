//! The router: one pattern table for each method and one for every method,
//! over an arena of endpoints.

use vstd::prelude::*;
use crate::errors::HttpResult;
use super::http_server::Endpoint;
use super::request::{Request, RequestView};
use super::response::{bare, Response, METHOD_NOT_ALLOWED, NOT_FOUND};
use super::table::{found_view, recognized, registrable, table_add, table_new, table_recognize, table_routes, Found};
use super::text::{holds_nul, pairs_view};

verus! {

/// The request methods. Each of the nine that HTTP names has a table of
/// its own; every other method is an `Extension`, and these share one.
#[derive(Debug, Clone, Copy, PartialEq, Eq, Structural)]
pub enum Method {
    Get,
    Head,
    Post,
    Put,
    Delete,
    Connect,
    Options,
    Trace,
    Patch,
    Extension,
}

/// How many tables for single methods there are.
pub const METHODS: usize = 10;

impl Method {
    /// The place of the method's table among the tables of a router.
    pub open spec fn index(self) -> int {
        match self {
            Method::Get => 0,
            Method::Head => 1,
            Method::Post => 2,
            Method::Put => 3,
            Method::Delete => 4,
            Method::Connect => 5,
            Method::Options => 6,
            Method::Trace => 7,
            Method::Patch => 8,
            Method::Extension => 9,
        }
    }

    /// The method whose table stands at the given place.
    pub open spec fn at(index: int) -> Method {
        if index == 0 {
            Method::Get
        } else if index == 1 {
            Method::Head
        } else if index == 2 {
            Method::Post
        } else if index == 3 {
            Method::Put
        } else if index == 4 {
            Method::Delete
        } else if index == 5 {
            Method::Connect
        } else if index == 6 {
            Method::Options
        } else if index == 7 {
            Method::Trace
        } else if index == 8 {
            Method::Patch
        } else {
            Method::Extension
        }
    }

    /// The place of the method's table among the tables of a router.
    pub fn slot(self) -> (i: usize)
        ensures
            i == self.index(),
            i < METHODS,
    {
        match self {
            Method::Get => 0,
            Method::Head => 1,
            Method::Post => 2,
            Method::Put => 3,
            Method::Delete => 4,
            Method::Connect => 5,
            Method::Options => 6,
            Method::Trace => 7,
            Method::Patch => 8,
            Method::Extension => 9,
        }
    }
}

/// What a lookup ends in: a registered endpoint, by its place in the router's
/// arena, or one of the two built-in answers.
#[derive(Debug, Clone, Copy, PartialEq, Eq, Structural)]
pub enum Target {
    Endpoint(usize),
    MethodNotAllowed,
    NotFound,
}

/// The result of routing a path: the endpoint to run and the parameters that
/// the matched pattern bound, as pairs of name and value.
#[derive(Debug)]
pub struct Selection {
    pub endpoint: Target,
    pub params: Vec<(String, String)>,
}

/// A selection as plain values.
pub struct SelectionView {
    pub endpoint: Target,
    pub params: Seq<(Seq<char>, Seq<char>)>,
}

impl View for Selection {
    type V = SelectionView;

    open spec fn view(&self) -> SelectionView {
        SelectionView { endpoint: self.endpoint, params: pairs_view(self.params@) }
    }
}

/// A selection, or none, as plain values.
pub open spec fn selection_view(selection: Option<Selection>) -> Option<SelectionView> {
    match selection {
        Some(s) => Some(s@),
        None => None,
    }
}

/// The selection that a match stands for.
pub open spec fn matched(found: (usize, Seq<(Seq<char>, Seq<char>)>)) -> SelectionView {
    SelectionView { endpoint: Target::Endpoint(found.0), params: found.1 }
}

/// The selection of a built-in answer: no parameters.
pub open spec fn built_in(endpoint: Target) -> SelectionView {
    SelectionView { endpoint, params: Seq::empty() }
}

/// The rule of the router over what its tables answered. `own` is the answer
/// of the method's own table, `any` that of the table for every method,
/// `as_get` the selection of the same path under `GET` where the method is
/// `HEAD`, and `other_method_matches` says whether the table of another
/// method matches the path. The first of them that is there decides.
pub open spec fn decide_spec(
    own: Option<(usize, Seq<(Seq<char>, Seq<char>)>)>,
    any: Option<(usize, Seq<(Seq<char>, Seq<char>)>)>,
    as_get: Option<SelectionView>,
    other_method_matches: bool,
) -> SelectionView {
    if own is Some {
        matched(own->0)
    } else if any is Some {
        matched(any->0)
    } else if as_get is Some {
        as_get->0
    } else if other_method_matches {
        built_in(Target::MethodNotAllowed)
    } else {
        built_in(Target::NotFound)
    }
}

/// Applies the rule of the router to what its tables answered: see
/// `decide_spec`.
pub fn decide(
    own: Option<Found>,
    any: Option<Found>,
    as_get: Option<Selection>,
    other_method_matches: bool,
) -> (selection: Selection)
    ensures
        selection@ == decide_spec(
            found_view(own),
            found_view(any),
            selection_view(as_get),
            other_method_matches,
        ),
{
    if let Some(found) = own {
        Selection { endpoint: Target::Endpoint(found.handler), params: found.params }
    } else if let Some(found) = any {
        Selection { endpoint: Target::Endpoint(found.handler), params: found.params }
    } else if let Some(selection) = as_get {
        selection
    } else if other_method_matches {
        let selection = Selection { endpoint: Target::MethodNotAllowed, params: Vec::new() };
        assert(selection@.params =~= Seq::empty());
        selection
    } else {
        let selection = Selection { endpoint: Target::NotFound, params: Vec::new() };
        assert(selection@.params =~= Seq::empty());
        selection
    }
}

/// A router as plain values: its endpoints in the order of their
/// registration, the registrations of each method that has any, and those
/// made for every method. A registration is a pattern and the place of its
/// endpoint.
pub struct RouterView<H> {
    pub endpoints: Seq<H>,
    pub by_method: Map<Method, Seq<(Seq<char>, usize)>>,
    pub any_method: Seq<(Seq<char>, usize)>,
}

impl<H> RouterView<H> {
    /// The registrations of a method, none where it has no table yet.
    pub open spec fn routes_for(self, method: Method) -> Seq<(Seq<char>, usize)> {
        if self.by_method.dom().contains(method) {
            self.by_method[method]
        } else {
            Seq::empty()
        }
    }

    /// The router after one more registration under a method.
    pub open spec fn with_route(self, path: Seq<char>, method: Method, ep: H) -> RouterView<H> {
        RouterView {
            endpoints: self.endpoints.push(ep),
            by_method: self.by_method.insert(
                method,
                self.routes_for(method).push((path, self.endpoints.len() as usize)),
            ),
            any_method: self.any_method,
        }
    }

    /// The router after one more registration for every method.
    pub open spec fn with_route_all(self, path: Seq<char>, ep: H) -> RouterView<H> {
        RouterView {
            endpoints: self.endpoints.push(ep),
            by_method: self.by_method,
            any_method: self.any_method.push((path, self.endpoints.len() as usize)),
        }
    }

    /// The router after one more registration, under a method or, with no
    /// method given, for every method.
    pub open spec fn put(self, path: Seq<char>, method: Option<Method>, ep: H) -> RouterView<H> {
        match method {
            Some(m) => self.with_route(path, m, ep),
            None => self.with_route_all(path, ep),
        }
    }

    /// What the method's own table answers for the path.
    pub open spec fn own_match(self, path: Seq<char>, method: Method) -> Option<
        (usize, Seq<(Seq<char>, Seq<char>)>),
    > {
        if self.by_method.dom().contains(method) {
            recognized(self.by_method[method], path)
        } else {
            None
        }
    }

    /// What the table for every method answers for the path.
    pub open spec fn any_match(self, path: Seq<char>) -> Option<(usize, Seq<(Seq<char>, Seq<char>)>)> {
        recognized(self.any_method, path)
    }

    /// Whether the table of a method other than the given one matches the path.
    pub open spec fn other_method_matches(self, path: Seq<char>, method: Method) -> bool {
        exists|other: Method|
            other != method && #[trigger] self.by_method.dom().contains(other) && recognized(
                self.by_method[other],
                path,
            ) is Some
    }

    /// The selection for a path and a method. A path with a NUL character
    /// matches nothing. Otherwise the method's own table decides where it
    /// matches, then the table for every method; failing both, `HEAD` is
    /// routed as `GET`; failing that, the answer is "method not allowed"
    /// where the table of another method matches, and "not found" where none
    /// does.
    pub open spec fn route(self, path: Seq<char>, method: Method) -> SelectionView
        decreases
            (if method == Method::Head {
                1nat
            } else {
                0nat
            }),
    {
        if path.contains('\0') {
            built_in(Target::NotFound)
        } else {
            decide_spec(
                self.own_match(path, method),
                self.any_match(path),
                if method == Method::Head {
                    Some(self.route(path, Method::Get))
                } else {
                    None
                },
                self.other_method_matches(path, method),
            )
        }
    }
}

/// The routing tables and the endpoints they lead to.
pub struct HttpRouter<H> {
    endpoints: Vec<H>,
    method_map: Vec<Option<route_recognizer::Router<usize>>>,
    all_method_router: route_recognizer::Router<usize>,
}

/// Whether every registration leads to a place below `limit`.
pub open spec fn leads_below(routes: Seq<(Seq<char>, usize)>, limit: nat) -> bool {
    forall|i: int| 0 <= i < routes.len() ==> (#[trigger] routes[i]).1 < limit
}

impl<H> View for HttpRouter<H> {
    type V = RouterView<H>;

    closed spec fn view(&self) -> RouterView<H> {
        RouterView {
            endpoints: self.endpoints@,
            by_method: Map::new(
                |m: Method| self.method_map@[m.index()] is Some,
                |m: Method| table_routes(self.method_map@[m.index()]->0),
            ),
            any_method: table_routes(self.all_method_router),
        }
    }
}

impl<H> HttpRouter<H> {
    /// The invariant of a router: it has a place for the table of each
    /// method, and every registration leads to one of its endpoints.
    pub closed spec fn wf(&self) -> bool {
        &&& self.method_map@.len() == METHODS
        &&& leads_below(table_routes(self.all_method_router), self.endpoints@.len())
        &&& forall|i: int|
            0 <= i < self.method_map@.len() && (#[trigger] self.method_map@[i]) is Some
                ==> leads_below(table_routes(self.method_map@[i]->0), self.endpoints@.len())
    }

    /// In a router that meets its invariant every registration leads to one
    /// of its endpoints.
    pub proof fn law_registrations_lead_to_endpoints(&self)
        requires
            self.wf(),
        ensures
            leads_below(self@.any_method, self@.endpoints.len()),
            forall|m: Method| #[trigger]
                self@.by_method.dom().contains(m) ==> leads_below(
                    self@.by_method[m],
                    self@.endpoints.len(),
                ),
    {
        assert forall|m: Method| #[trigger] self@.by_method.dom().contains(m) implies leads_below(
            self@.by_method[m],
            self@.endpoints.len(),
        ) by {
            assert(self.method_map@[m.index()] is Some);
        }
    }

    /// A router without registrations.
    pub fn new() -> (router: Self)
        ensures
            router.wf(),
            router@.endpoints == Seq::<H>::empty(),
            router@.by_method == Map::<Method, Seq<(Seq<char>, usize)>>::empty(),
            router@.any_method == Seq::<(Seq<char>, usize)>::empty(),
    {
        let mut method_map: Vec<Option<route_recognizer::Router<usize>>> = Vec::new();
        let mut i: usize = 0;
        while i < METHODS
            invariant
                i <= METHODS,
                method_map@.len() == i,
                forall|k: int| 0 <= k < i ==> (#[trigger] method_map@[k]) is None,
            decreases METHODS - i,
        {
            method_map.push(None);
            i = i + 1;
        }
        let router = HttpRouter { endpoints: Vec::new(), method_map, all_method_router: table_new() };
        proof {
            assert(router@.by_method =~= Map::<Method, Seq<(Seq<char>, usize)>>::empty());
        }
        router
    }

    /// How many endpoints are registered.
    pub fn len(&self) -> (n: usize)
        ensures
            n == self@.endpoints.len(),
    {
        self.endpoints.len()
    }

    /// The endpoint at a place of the arena, if the place is taken.
    pub fn endpoint(&self, id: usize) -> (ep: Option<&H>)
        ensures
            id < self@.endpoints.len() ==> ep == Some(&self@.endpoints[id as int]),
            id >= self@.endpoints.len() ==> ep is None,
    {
        if id < self.endpoints.len() {
            Some(&self.endpoints[id])
        } else {
            None
        }
    }

    /// Registers an endpoint under a pattern for one method. The endpoint
    /// takes the next place of the arena. An earlier registration of the
    /// same pattern stays where it is; the table prefers the later one (see
    /// `recognized`).
    pub fn add(&mut self, path: &str, method: Method, ep: H)
        requires
            old(self).wf(),
            registrable(path@),
        ensures
            final(self).wf(),
            final(self)@ == old(self)@.with_route(path@, method, ep),
    {
        let id = self.endpoints.len();
        let slot = method.slot();
        let entry = self.method_map.remove(slot);
        let mut table = match entry {
            Some(table) => table,
            None => table_new(),
        };
        let ghost before = table_routes(table);
        table_add(&mut table, path, id);
        self.method_map.insert(slot, Some(table));
        self.endpoints.push(ep);
        proof {
            assert(before == old(self)@.routes_for(method));
            assert(self.method_map@ =~= old(self).method_map@.update(slot as int, Some(table)));
            assert forall|i: int|
                0 <= i < self.method_map@.len() && (#[trigger] self.method_map@[i]) is Some
                    implies leads_below(
                table_routes(self.method_map@[i]->0),
                self.endpoints@.len(),
            ) by {
                if i != slot {
                    assert(old(self).method_map@[i] is Some);
                }
            }
            assert(self@.by_method =~= old(self)@.with_route(path@, method, ep).by_method);
        }
    }

    /// Registers an endpoint under a pattern for every method.
    pub fn add_all(&mut self, path: &str, ep: H)
        requires
            old(self).wf(),
            registrable(path@),
        ensures
            final(self).wf(),
            final(self)@ == old(self)@.with_route_all(path@, ep),
    {
        let id = self.endpoints.len();
        table_add(&mut self.all_method_router, path, id);
        self.endpoints.push(ep);
        proof {
            assert forall|i: int|
                0 <= i < self.method_map@.len() && (#[trigger] self.method_map@[i]) is Some
                    implies leads_below(
                table_routes(self.method_map@[i]->0),
                self.endpoints@.len(),
            ) by {
                assert(old(self).method_map@[i] is Some);
            }
            assert(self@.by_method =~= old(self)@.by_method);
        }
    }

    /// What the method's own table answers for the path.
    fn own_match(&self, path: &str, method: Method) -> (found: Option<Found>)
        requires
            self.wf(),
            !path@.contains('\0'),
        ensures
            found_view(found) == self@.own_match(path@, method),
            found matches Some(f) ==> f.handler < self@.endpoints.len(),
    {
        let slot = method.slot();
        match &self.method_map[slot] {
            Some(table) => table_recognize(table, path),
            None => None,
        }
    }

    /// Whether the table of a method other than the given one matches the path.
    fn other_method_matches(&self, path: &str, method: Method) -> (hit: bool)
        requires
            self.wf(),
            !path@.contains('\0'),
        ensures
            hit == self@.other_method_matches(path@, method),
    {
        let skip = method.slot();
        let mut hit = false;
        let mut i: usize = 0;
        while i < METHODS && !hit
            invariant
                i <= METHODS,
                self.wf(),
                !path@.contains('\0'),
                skip == method.index(),
                hit ==> self@.other_method_matches(path@, method),
                !hit ==> forall|k: int|
                    0 <= k < i && k != skip && (#[trigger] self.method_map@[k]) is Some ==> recognized(
                        table_routes(self.method_map@[k]->0),
                        path@,
                    ) is None,
            decreases METHODS - i + (if hit { 0int } else { 1int }),
        {
            if i != skip {
                if let Some(table) = &self.method_map[i] {
                    if table_recognize(table, path).is_some() {
                        hit = true;
                        proof {
                            let other = Method::at(i as int);
                            assert(other.index() == i);
                            assert(self@.by_method.dom().contains(other));
                        }
                    }
                }
            }
            if !hit {
                i = i + 1;
            }
        }
        proof {
            if !hit {
                assert forall|other: Method|
                    other != method && #[trigger] self@.by_method.dom().contains(other) implies recognized(
                    self@.by_method[other],
                    path@,
                ) is None by {
                    assert(self.method_map@[other.index()] is Some);
                }
            }
        }
        hit
    }

    /// Routes a path that holds no NUL character.
    fn route_clean(&self, path: &str, method: Method) -> (selection: Selection)
        requires
            self.wf(),
            !path@.contains('\0'),
        ensures
            selection@ == self@.route(path@, method),
            selection.endpoint matches Target::Endpoint(id) ==> id < self@.endpoints.len(),
        decreases
            (if method == Method::Head {
                1nat
            } else {
                0nat
            }),
    {
        let own = self.own_match(path, method);
        if own.is_some() {
            return decide(own, None, None, false);
        }
        let any = table_recognize(&self.all_method_router, path);
        if any.is_some() {
            return decide(None, any, None, false);
        }
        if method == Method::Head {
            let as_get = self.route_clean(path, Method::Get);
            return decide(None, None, Some(as_get), false);
        }
        let other = self.other_method_matches(path, method);
        decide(None, None, None, other)
    }

    /// Selects the endpoint for a path and a method, with the parameters
    /// that the matched pattern bound. Every path and method get a
    /// selection: where nothing is registered for them it is one of the two
    /// built-in answers. A selected endpoint is one of this router's.
    pub fn route(&self, path: &str, method: Method) -> (selection: Selection)
        requires
            self.wf(),
        ensures
            selection@ == self@.route(path@, method),
            selection.endpoint matches Target::Endpoint(id) ==> id < self@.endpoints.len(),
    {
        if holds_nul(path) {
            let selection = Selection { endpoint: Target::NotFound, params: Vec::new() };
            assert(selection@.params =~= Seq::empty());
            selection
        } else {
            self.route_clean(path, method)
        }
    }
}


/// The built-in endpoint for a path that nothing is registered for: it
/// answers every request with the bare status 404.
pub fn not_found_endpoint(req: Request) -> (out: HttpResult<Response>)
    ensures
        out matches Ok(response) && response@ == bare(NOT_FOUND),
{
    Ok(Response::new(NOT_FOUND))
}

/// The built-in endpoint for a path that is registered for other methods
/// only: it answers every request with the bare status 405.
pub fn method_not_allowed(req: Request) -> (out: HttpResult<Response>)
    ensures
        out matches Ok(response) && response@ == bare(METHOD_NOT_ALLOWED),
{
    Ok(Response::new(METHOD_NOT_ALLOWED))
}

/// The request as the selected endpoint gets it: with the parameters that
/// routing bound.
pub open spec fn bound(req: RequestView, params: Seq<(Seq<char>, Seq<char>)>) -> RequestView {
    RequestView { params, ..req }
}

impl<H: Endpoint> HttpRouter<H> {
    /// Whether `out` can be the outcome of dispatching `req`: the request
    /// is routed by its path and its method; a built-in answer is given as
    /// it is, and a selected endpoint is called with the request and the
    /// bound parameters.
    pub open spec fn may_dispatch(&self, req: Request, out: HttpResult<Response>) -> bool {
        let selection = self@.route(req@.path, req@.method);
        match selection.endpoint {
            Target::NotFound => out matches Ok(response) && response@ == bare(NOT_FOUND),
            Target::MethodNotAllowed => out matches Ok(response) && response@ == bare(
                METHOD_NOT_ALLOWED,
            ),
            Target::Endpoint(id) => exists|inner: Request| #[trigger]
                self@.endpoints[id as int].may_answer(inner, out) && inner@ == bound(
                    req@,
                    selection.params,
                ),
        }
    }

    /// Routes a request and runs the endpoint that was selected.
    pub fn dispatch(&self, req: Request) -> (out: HttpResult<Response>)
        requires
            self.wf(),
        ensures
            self.may_dispatch(req, out),
    {
        let selection = self.route(req.path.as_str(), req.method);
        match selection.endpoint {
            Target::NotFound => not_found_endpoint(req),
            Target::MethodNotAllowed => method_not_allowed(req),
            Target::Endpoint(id) => {
                let inner = Request {
                    method: req.method,
                    path: req.path,
                    query: req.query,
                    authority: req.authority,
                    headers: req.headers,
                    body: req.body,
                    peer_addr: req.peer_addr,
                    local_addr: req.local_addr,
                    params: selection.params,
                };
                let out = self.endpoints[id].call(inner);
                assert(self@.endpoints[id as int].may_answer(inner, out));
                out
            },
        }
    }
}

/// Where the method's own table matches a path, the path is routed to the
/// endpoint that the table names, with the parameters that it bound.
pub proof fn law_own_table_decides<H>(router: RouterView<H>, path: Seq<char>, method: Method)
    requires
        !path.contains('\0'),
        router.own_match(path, method) is Some,
    ensures
        router.route(path, method) == matched(router.own_match(path, method)->0),
{
}

/// Where the method's own table does not match a path and the table for
/// every method does, the path is routed to the endpoint that this table
/// names, with the parameters that it bound.
pub proof fn law_any_table_decides_next<H>(router: RouterView<H>, path: Seq<char>, method: Method)
    requires
        !path.contains('\0'),
        router.own_match(path, method) is None,
        router.any_match(path) is Some,
    ensures
        router.route(path, method) == matched(router.any_match(path)->0),
{
}

/// A path that no table matches, under whatever method, is routed to "not
/// found", without parameters.
pub proof fn law_unmatched_is_not_found<H>(router: RouterView<H>, path: Seq<char>, method: Method)
    requires
        router.any_match(path) is None,
        forall|m: Method| (#[trigger] router.own_match(path, m)) is None,
    ensures
        router.route(path, method) == built_in(Target::NotFound),
{
    assert(router.own_match(path, method) is None);
    assert(router.own_match(path, Method::Get) is None);
    assert forall|m: Method| !(#[trigger] router.other_method_matches(path, m)) by {
        if router.other_method_matches(path, m) {
            let other = choose|other: Method|
                other != m && #[trigger] router.by_method.dom().contains(other) && recognized(
                    router.by_method[other],
                    path,
                ) is Some;
            assert(router.own_match(path, other) is Some);
        }
    }
    assert(!router.other_method_matches(path, method));
    assert(!router.other_method_matches(path, Method::Get));
    assert(router.route(path, Method::Get) == built_in(Target::NotFound));
}

/// A path that is matched under another method only is routed to "method
/// not allowed", without parameters: the method's own table and the table
/// for every method do not match it, the table of another method does, and,
/// since `HEAD` is routed as `GET`, under `HEAD` the table of `GET` does not
/// match it either.
pub proof fn law_other_method_is_not_allowed<H>(router: RouterView<H>, path: Seq<char>, method: Method)
    requires
        !path.contains('\0'),
        router.own_match(path, method) is None,
        router.any_match(path) is None,
        router.other_method_matches(path, method),
        method == Method::Head ==> router.own_match(path, Method::Get) is None,
    ensures
        router.route(path, method) == built_in(Target::MethodNotAllowed),
{
    if method == Method::Head {
        let other = choose|other: Method|
            other != method && #[trigger] router.by_method.dom().contains(other) && recognized(
                router.by_method[other],
                path,
            ) is Some;
        assert(router.own_match(path, other) is Some);
        assert(other != Method::Get);
        assert(router.other_method_matches(path, Method::Get));
    }
}

/// A path that is registered neither under `HEAD` nor for every method is
/// routed under `HEAD` exactly as under `GET`.
pub proof fn law_head_routes_as_get<H>(router: RouterView<H>, path: Seq<char>)
    requires
        router.own_match(path, Method::Head) is None,
        router.any_match(path) is None,
    ensures
        router.route(path, Method::Head) == router.route(path, Method::Get),
{
}

/// Every path and method are routed either to one of the two built-in
/// answers, without parameters, or to an endpoint that a table named.
pub proof fn law_route_is_total<H>(router: RouterView<H>, path: Seq<char>, method: Method)
    ensures
        match router.route(path, method).endpoint {
            Target::Endpoint(id) => exists|m: Method|
                (#[trigger] router.own_match(path, m)) == Some(
                    (id, router.route(path, method).params),
                ) || router.any_match(path) == Some((id, router.route(path, method).params)),
            Target::MethodNotAllowed => router.route(path, method) == built_in(
                Target::MethodNotAllowed,
            ),
            Target::NotFound => router.route(path, method) == built_in(Target::NotFound),
        },
{
    if !path.contains('\0') {
        if router.own_match(path, method) is Some {
            assert(router.own_match(path, method) == Some(router.own_match(path, method)->0));
        } else if router.any_match(path) is Some {
            assert(router.own_match(path, method) is None);
        } else if method == Method::Head {
            if router.own_match(path, Method::Get) is Some {
                assert(router.own_match(path, Method::Get) == Some(
                    router.own_match(path, Method::Get)->0,
                ));
            }
        }
    }
}

} // verus!
