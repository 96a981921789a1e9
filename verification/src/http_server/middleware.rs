//! Middleware and the rest of a chain.

use std::sync::Arc;
use vstd::prelude::*;
use vstd::slice::slice_subrange;
use crate::errors::{HttpError, HttpResult};
use super::http_server::Endpoint;
use super::request::Request;
use super::response::{bare, Response, INTERNAL_SERVER_ERROR};

verus! {

/// Something that wraps around the rest of a chain: it may look at the
/// request, hand it on by running `next`, look at the response, or answer by
/// itself without running `next` at all.
///
/// `may_handle` is the implementor's own account of its answers: it says
/// which outcomes `handle` can have on a request and a rest of the chain.
/// Left as it is, it holds of every outcome and so tells nothing.
pub trait Middleware<E: Endpoint>: Sized {
    /// Whether `handle` can have this outcome on this request and this rest.
    open spec fn may_handle(&self, req: Request, next: Next<'_, E, Self>, out: HttpResult<Response>) -> bool {
        true
    }

    /// Handles one request around the rest of the chain.
    fn handle(&self, req: Request, next: Next<'_, E, Self>) -> (out: HttpResult<Response>)
        ensures
            self.may_handle(req, next, out),
    ;
}

/// The rest of a chain: the middleware that has not run yet, in the order in
/// which it runs, and the endpoint behind it. It is used up by `run`.
pub struct Next<'a, E, M> {
    pub endpoint: &'a E,
    pub next_middleware: &'a [Arc<M>],
}

/// Whether `response` is what the chain makes of an outcome: the response
/// itself where there is one, and the bare status 500 for every failure.
pub open spec fn settled(out: HttpResult<Response>, response: Response) -> bool {
    match out {
        Ok(r) => response == r,
        Err(_) => response@ == bare(INTERNAL_SERVER_ERROR),
    }
}

/// Turns an outcome into a response: a failure becomes the bare status 500,
/// with nothing of the failure in it.
pub fn settle(out: HttpResult<Response>) -> (response: Response)
    ensures
        settled(out, response),
{
    match out {
        Ok(response) => response,
        Err(_) => Response::new(INTERNAL_SERVER_ERROR),
    }
}

impl<'a, E: Endpoint, M: Middleware<E>> Next<'a, E, M> {
    /// Whether `rest` is this chain without its first middleware.
    pub open spec fn is_rest(self, rest: Next<'a, E, M>) -> bool {
        &&& self.next_middleware@.len() > 0
        &&& rest.endpoint == self.endpoint
        &&& rest.next_middleware@ == self.next_middleware@.skip(1)
    }

    /// Whether the first step of this chain can have the outcome `out` on
    /// `req`. The first step of a chain without middleware is a call of the
    /// endpoint with the request. That of any other chain is a call of its
    /// first middleware with the request and the rest of the chain.
    pub open spec fn may_yield(self, req: Request, out: HttpResult<Response>) -> bool {
        if self.next_middleware@.len() == 0 {
            self.endpoint.may_answer(req, out)
        } else {
            exists|rest: Next<'a, E, M>| #[trigger]
                self.is_rest(rest) && self.next_middleware@[0].may_handle(req, rest, out)
        }
    }

    /// Whether running this chain on `req` can give `response`: it is what
    /// an outcome of the first step settles to.
    pub open spec fn may_respond(self, req: Request, response: Response) -> bool {
        exists|out: HttpResult<Response>| #[trigger]
            self.may_yield(req, out) && settled(out, response)
    }

    /// Runs the rest of the chain on a request. The first middleware is
    /// called with the request and the chain behind it; where none is left,
    /// the endpoint is called. Whatever fails, a response comes back.
    pub fn run(self, req: Request) -> (response: Response)
        ensures
            self.may_respond(req, response),
    {
        let n = self.next_middleware.len();
        if n > 0 {
            let current = &self.next_middleware[0];
            let rest = Next {
                endpoint: self.endpoint,
                next_middleware: slice_subrange(self.next_middleware, 1, n),
            };
            assert(self.is_rest(rest));
            let out = current.handle(req, rest);
            assert(self.may_yield(req, out));
            settle(out)
        } else {
            let out = self.endpoint.call(req);
            assert(self.may_yield(req, out));
            settle(out)
        }
    }
}

/// A failure anywhere in the first step of a chain comes out as the bare
/// status 500: where every outcome that the first step can have on a
/// request is a failure, that is the response of the run.
pub proof fn law_failure_becomes_500<E: Endpoint, M: Middleware<E>>(
    next: Next<'_, E, M>,
    req: Request,
    response: Response,
)
    requires
        next.may_respond(req, response),
        forall|out: HttpResult<Response>| #[trigger] next.may_yield(req, out) ==> out is Err,
    ensures
        response@ == bare(INTERNAL_SERVER_ERROR),
{
}

/// A middleware that answers by itself decides the response of the chain:
/// where the first middleware can have no outcome on a request but the
/// response `answer`, whatever the rest of the chain is, that is the
/// response of the run.
pub proof fn law_short_circuit_decides<E: Endpoint, M: Middleware<E>>(
    next: Next<'_, E, M>,
    req: Request,
    answer: Response,
    response: Response,
)
    requires
        next.next_middleware@.len() > 0,
        next.may_respond(req, response),
        forall|rest: Next<'_, E, M>, out: HttpResult<Response>| #[trigger]
            next.next_middleware@[0].may_handle(req, rest, out) ==> out == Ok::<
                Response,
                HttpError,
            >(answer),
    ensures
        response == answer,
{
}

/// A chain without middleware answers as its endpoint does: a response of
/// the run is what an outcome of the endpoint on the request settles to.
pub proof fn law_empty_chain_is_endpoint<E: Endpoint, M: Middleware<E>>(
    next: Next<'_, E, M>,
    req: Request,
    response: Response,
)
    requires
        next.next_middleware@.len() == 0,
        next.may_respond(req, response),
    ensures
        exists|out: HttpResult<Response>| #[trigger]
            next.endpoint.may_answer(req, out) && settled(out, response),
{
    let out = choose|out: HttpResult<Response>| #[trigger]
        next.may_yield(req, out) && settled(out, response);
    assert(next.endpoint.may_answer(req, out));
}

} // verus!
