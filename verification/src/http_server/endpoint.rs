//! The endpoints that the router stores: an endpoint behind its middleware,
//! and an endpoint behind a prefix mount.

use std::sync::Arc;
use vstd::prelude::*;
use vstd::string::StringExecFns;
use crate::errors::HttpResult;
use super::http_server::Endpoint;
use super::request::{find_first, first_value, rest_name, Request, RequestView};
use super::response::Response;
use super::middleware::{Middleware, Next};

verus! {

/// Calls `Arc::clone`. Trusted: the new handle leads to the same value.
#[verifier::external_body]
pub(crate) fn share<T>(value: &Arc<T>) -> (shared: Arc<T>)
    ensures
        shared == *value,
{
    Arc::clone(value)
}

/// A list of handles to the same values, in the same order.
pub fn share_all<T>(list: &[Arc<T>]) -> (copy: Vec<Arc<T>>)
    ensures
        copy@ == list@,
{
    let mut copy: Vec<Arc<T>> = Vec::new();
    let mut i: usize = 0;
    while i < list.len()
        invariant
            i <= list@.len(),
            copy@ == list@.take(i as int),
        decreases list@.len() - i,
    {
        copy.push(share(&list[i]));
        assert(copy@ =~= list@.take(i + 1));
        i = i + 1;
    }
    assert(list@.take(i as int) =~= list@);
    copy
}

/// The rest of the path that a prefix mount bound: the value of the first
/// parameter named `rest`, and the empty text where there is none.
pub open spec fn rest_of(params: Seq<(Seq<char>, Seq<char>)>) -> Seq<char> {
    match first_value(params, rest_name()) {
        Some(rest) => rest,
        None => Seq::empty(),
    }
}

/// The request as the endpoint behind a prefix mount sees it: its path is
/// the rest of the path below the mount point.
pub open spec fn stripped(req: RequestView) -> RequestView {
    RequestView { path: rest_of(req.params), ..req }
}

/// Replaces the path of a request by the rest that a prefix mount bound.
pub fn strip_prefix(req: Request) -> (inner: Request)
    ensures
        inner@ == stripped(req@),
{
    let path = match find_first(&req.params, "rest") {
        Some(rest) => String::from_str(rest),
        None => String::new(),
    };
    Request {
        method: req.method,
        path,
        query: req.query,
        authority: req.authority,
        headers: req.headers,
        body: req.body,
        peer_addr: req.peer_addr,
        local_addr: req.local_addr,
        params: req.params,
    }
}

/// An endpoint as a route holds it: shared, and marked where it stands
/// behind a prefix mount. Behind a prefix mount it sees requests with the
/// path below the mount point.
pub struct StripPrefixEndpoint<E> {
    pub endpoint: Arc<E>,
    pub strip: bool,
}

impl<E> StripPrefixEndpoint<E> {
    /// The endpoint behind a prefix mount.
    pub fn new(ep: E) -> (mounted: Self)
        ensures
            *mounted.endpoint == ep,
            mounted.strip,
    {
        StripPrefixEndpoint { endpoint: Arc::new(ep), strip: true }
    }

    /// The endpoint as it is, behind no mount.
    pub fn plain(ep: E) -> (held: Self)
        ensures
            *held.endpoint == ep,
            !held.strip,
    {
        StripPrefixEndpoint { endpoint: Arc::new(ep), strip: false }
    }

    /// Another handle to the same endpoint, marked alike.
    pub fn share(&self) -> (other: Self)
        ensures
            other == *self,
    {
        StripPrefixEndpoint { endpoint: share(&self.endpoint), strip: self.strip }
    }

    /// Whether `inner` is the request that this endpoint hands on for `req`.
    pub open spec fn hands_on(&self, req: Request, inner: Request) -> bool {
        if self.strip {
            inner@ == stripped(req@)
        } else {
            inner == req
        }
    }
}

impl<E: Endpoint> Endpoint for StripPrefixEndpoint<E> {
    /// The outcomes of the endpoint inside on the request that is handed on.
    open spec fn may_answer(&self, req: Request, out: HttpResult<Response>) -> bool {
        exists|inner: Request| #[trigger]
            self.hands_on(req, inner) && self.endpoint.may_answer(inner, out)
    }

    fn call(&self, req: Request) -> (out: HttpResult<Response>) {
        if self.strip {
            let inner = strip_prefix(req);
            let out = self.endpoint.call(inner);
            assert(self.hands_on(req, inner));
            out
        } else {
            let out = self.endpoint.call(req);
            assert(self.hands_on(req, req));
            out
        }
    }
}

/// An endpoint together with the middleware that runs around it, first
/// registered first.
pub struct MiddlewareEndpoint<E, M> {
    pub endpoint: E,
    pub middleware: Vec<Arc<M>>,
}

impl<E, M> MiddlewareEndpoint<E, M> {
    /// Puts an endpoint behind a list of middleware.
    pub fn wrap_with_middleware(ep: E, middleware: &[Arc<M>]) -> (wrapped: Self)
        ensures
            wrapped.endpoint == ep,
            wrapped.middleware@ == middleware@,
    {
        MiddlewareEndpoint { endpoint: ep, middleware: share_all(middleware) }
    }

    /// Whether `next` is the whole chain of this endpoint.
    pub open spec fn is_chain(&self, next: Next<'_, E, M>) -> bool {
        &&& *next.endpoint == self.endpoint
        &&& next.next_middleware@ == self.middleware@
    }
}

impl<E: Endpoint, M: Middleware<E>> Endpoint for MiddlewareEndpoint<E, M> {
    /// Never a failure: a response that a run of the whole chain can give.
    open spec fn may_answer(&self, req: Request, out: HttpResult<Response>) -> bool {
        &&& out is Ok
        &&& exists|next: Next<'_, E, M>| #[trigger]
            self.is_chain(next) && next.may_respond(req, out->Ok_0)
    }

    fn call(&self, req: Request) -> (out: HttpResult<Response>) {
        let next = Next { endpoint: &self.endpoint, next_middleware: self.middleware.as_slice() };
        assert(self.is_chain(next));
        Ok(next.run(req))
    }
}

} // verus!
