//! A server without its transport: settings, routes, and the answer to one
//! request.

use vstd::prelude::*;
use vstd::string::StringExecFns;
use crate::errors::HttpResult;
use super::endpoint::StripPrefixEndpoint;
use super::http_server::{Endpoint, HttpServerConfig};
use super::request::Request;
use super::response::{bare, Response, ResponseView, INTERNAL_SERVER_ERROR};
use super::middleware::Middleware;
use super::route::{registers, Registered, Route};
use super::router::{HttpRouter, Method};
use super::table::registrable;
use super::text::{pairs_view, same_text, without};

verus! {

/// The digit of a number below ten.
pub open spec fn digit_of(d: nat) -> char {
    if d == 0 {
        '0'
    } else if d == 1 {
        '1'
    } else if d == 2 {
        '2'
    } else if d == 3 {
        '3'
    } else if d == 4 {
        '4'
    } else if d == 5 {
        '5'
    } else if d == 6 {
        '6'
    } else if d == 7 {
        '7'
    } else if d == 8 {
        '8'
    } else {
        '9'
    }
}

/// A number in decimal digits, without leading zeros.
pub open spec fn decimal_of(n: nat) -> Seq<char>
    decreases n,
{
    if n < 10 {
        seq![digit_of(n)]
    } else {
        decimal_of(n / 10).push(digit_of(n % 10))
    }
}

/// The digit of a number below ten, as a text.
fn digit(d: usize) -> (text: &'static str)
    requires
        d < 10,
    ensures
        text@ == seq![digit_of(d as nat)],
{
    proof {
        reveal_strlit("0");
        reveal_strlit("1");
        reveal_strlit("2");
        reveal_strlit("3");
        reveal_strlit("4");
        reveal_strlit("5");
        reveal_strlit("6");
        reveal_strlit("7");
        reveal_strlit("8");
        reveal_strlit("9");
    }
    let text = if d == 0 {
        "0"
    } else if d == 1 {
        "1"
    } else if d == 2 {
        "2"
    } else if d == 3 {
        "3"
    } else if d == 4 {
        "4"
    } else if d == 5 {
        "5"
    } else if d == 6 {
        "6"
    } else if d == 7 {
        "7"
    } else if d == 8 {
        "8"
    } else {
        "9"
    };
    assert(text@ =~= seq![digit_of(d as nat)]);
    text
}

/// Writes a number in decimal digits.
pub fn decimal(n: usize) -> (text: String)
    ensures
        text@ == decimal_of(n as nat),
    decreases n,
{
    if n < 10 {
        String::from_str(digit(n))
    } else {
        let mut text = decimal(n / 10);
        text.append(digit(n % 10));
        text
    }
}

/// The texts of a list as plain values.
pub open spec fn texts(list: Seq<String>) -> Seq<Seq<char>> {
    Seq::new(list.len(), |i: int| list[i]@)
}

/// The texts of a list with a comma and a blank between them.
pub open spec fn listed(list: Seq<Seq<char>>) -> Seq<char>
    decreases list.len(),
{
    if list.len() == 0 {
        Seq::empty()
    } else if list.len() == 1 {
        list[0]
    } else {
        listed(list.drop_last()) + ", "@ + list.last()
    }
}

/// The value of a cross-origin header for a list of what is allowed: the
/// text `any` where the list holds `*`, else the texts of the list.
pub open spec fn allowed(list: Seq<Seq<char>>, any: Seq<char>) -> Seq<char> {
    if list.contains("*"@) {
        any
    } else {
        listed(list)
    }
}

/// Writes the value of a cross-origin header: see `allowed`.
pub fn allowed_value(list: &Vec<String>, any: &str) -> (value: String)
    ensures
        value@ == allowed(texts(list@), any@),
{
    let ghost all = texts(list@);
    let mut value = String::new();
    let mut i: usize = 0;
    assert(all.take(0) =~= Seq::<Seq<char>>::empty());
    while i < list.len()
        invariant
            i <= list@.len(),
            all == texts(list@),
            !all.take(i as int).contains("*"@),
            value@ == listed(all.take(i as int)),
        decreases list@.len() - i,
    {
        proof {
            assert(all.take(i + 1).drop_last() =~= all.take(i as int));
            assert(all.take(i + 1).last() == all[i as int]);
        }
        if same_text(list[i].as_str(), "*") {
            assert(all[i as int] == "*"@);
            assert(all.contains("*"@));
            return String::from_str(any);
        }
        let ghost before = value@;
        if i > 0 {
            value.append(", ");
        }
        value.append(list[i].as_str());
        proof {
            if i == 0 {
                assert(before =~= Seq::<char>::empty());
                assert(value@ =~= all[0]);
                assert(all.take(1)[0] == all[0]);
            } else {
                assert(value@ =~= before + ", "@ + all[i as int]);
            }
            if all.take(i + 1).contains("*"@) {
                let now = all.take(i + 1);
                let k = choose|k: int| 0 <= k < now.len() && #[trigger] now[k] == "*"@;
                if k < i {
                    assert(all.take(i as int)[k] == "*"@);
                    assert(all.take(i as int).contains("*"@));
                }
            }
        }
        i = i + 1;
    }
    proof {
        assert(all.take(i as int) =~= all);
    }
    value
}

/// One header, where there is something to say, else none.
pub open spec fn optional(present: bool, name: Seq<char>, value: Seq<char>) -> Seq<
    (Seq<char>, Seq<char>),
> {
    if present {
        seq![(name, value)]
    } else {
        Seq::empty()
    }
}

/// The headers that every answer of a server gets for its settings: one
/// for each list of what is allowed that is not empty, one where
/// credentials are supported, and the lifetime of a preflight answer.
pub open spec fn cors_headers_of(config: HttpServerConfig) -> Seq<(Seq<char>, Seq<char>)> {
    optional(
        config.allow_methods@.len() > 0,
        "access-control-allow-methods"@,
        allowed(texts(config.allow_methods@), "GET, POST, PUT, DELETE, OPTIONS"@),
    ) + optional(
        config.allow_origins@.len() > 0,
        "access-control-allow-origin"@,
        allowed(texts(config.allow_origins@), "*"@),
    ) + optional(
        config.allow_headers@.len() > 0,
        "access-control-allow-headers"@,
        allowed(texts(config.allow_headers@), "*"@),
    ) + optional(
        config.expose_headers@.len() > 0,
        "access-control-expose-headers"@,
        allowed(texts(config.expose_headers@), "*"@),
    ) + optional(config.support_credentials, "access-control-allow-credentials"@, "true"@)
        + seq![("access-control-max-age"@, decimal_of(config.max_age as nat))]
}

/// Adds a header to a list where there is something to say.
fn push_optional(headers: &mut Vec<(String, String)>, present: bool, name: &str, value: String)
    ensures
        pairs_view(final(headers)@) == pairs_view(old(headers)@) + optional(present, name@, value@),
{
    if present {
        headers.push((String::from_str(name), value));
        assert(pairs_view(headers@) =~= pairs_view(old(headers)@) + seq![(name@, value@)]);
    } else {
        assert(pairs_view(headers@) =~= pairs_view(old(headers)@) + Seq::empty());
    }
}

/// Computes the headers that every answer of a server gets: see
/// `cors_headers_of`.
pub fn cors_headers(config: &HttpServerConfig) -> (headers: Vec<(String, String)>)
    ensures
        pairs_view(headers@) == cors_headers_of(*config),
{
    let mut headers: Vec<(String, String)> = Vec::new();
    assert(pairs_view(headers@) =~= Seq::empty());
    push_optional(
        &mut headers,
        config.allow_methods.len() > 0,
        "access-control-allow-methods",
        allowed_value(&config.allow_methods, "GET, POST, PUT, DELETE, OPTIONS"),
    );
    push_optional(
        &mut headers,
        config.allow_origins.len() > 0,
        "access-control-allow-origin",
        allowed_value(&config.allow_origins, "*"),
    );
    push_optional(
        &mut headers,
        config.allow_headers.len() > 0,
        "access-control-allow-headers",
        allowed_value(&config.allow_headers, "*"),
    );
    push_optional(
        &mut headers,
        config.expose_headers.len() > 0,
        "access-control-expose-headers",
        allowed_value(&config.expose_headers, "*"),
    );
    push_optional(
        &mut headers,
        config.support_credentials,
        "access-control-allow-credentials",
        String::from_str("true"),
    );
    push_optional(&mut headers, true, "access-control-max-age", decimal(config.max_age));
    assert(pairs_view(headers@) =~= cors_headers_of(*config));
    headers
}

/// The headers of a response after each of `extra` was set on it, one
/// after the other.
pub open spec fn with_headers(
    headers: Seq<(Seq<char>, Seq<char>)>,
    extra: Seq<(Seq<char>, Seq<char>)>,
) -> Seq<(Seq<char>, Seq<char>)>
    decreases extra.len(),
{
    if extra.len() == 0 {
        headers
    } else {
        without(with_headers(headers, extra.drop_last()), extra.last().0).push(extra.last())
    }
}

/// Whether `response` is the answer of a server to an outcome of its
/// dispatch: a response gets the server's headers set on it, and a
/// failure becomes the bare status 500.
pub open spec fn answered(
    out: HttpResult<Response>,
    extra: Seq<(Seq<char>, Seq<char>)>,
    response: Response,
) -> bool {
    match out {
        Ok(r) => response@ == (ResponseView { headers: with_headers(r@.headers, extra), ..r@ }),
        Err(_) => response@ == bare(INTERNAL_SERVER_ERROR),
    }
}

/// Makes the answer of a server from an outcome of its dispatch: see
/// `answered`.
pub fn answer(out: HttpResult<Response>, extra: &Vec<(String, String)>) -> (response: Response)
    ensures
        answered(out, pairs_view(extra@), response),
{
    match out {
        Ok(r) => {
            let mut response = r;
            let ghost all = pairs_view(extra@);
            let mut i: usize = 0;
            assert(all.take(0) =~= Seq::empty());
            while i < extra.len()
                invariant
                    i <= extra@.len(),
                    all == pairs_view(extra@),
                    response@ == (ResponseView {
                        headers: with_headers(r@.headers, all.take(i as int)),
                        ..r@
                    }),
                decreases extra@.len() - i,
            {
                proof {
                    assert(all.take(i + 1).drop_last() =~= all.take(i as int));
                    assert(all.take(i + 1).last() == all[i as int]);
                }
                response.insert_header(extra[i].0.as_str(), extra[i].1.as_str());
                i = i + 1;
            }
            proof {
                assert(all.take(i as int) =~= all);
            }
            response
        },
        Err(_) => Response::new(INTERNAL_SERVER_ERROR),
    }
}

/// A server without its transport: its settings, its router, and the
/// headers that each of its answers gets.
pub struct HttpServerCore<E, M> {
    pub config: HttpServerConfig,
    pub router: HttpRouter<Registered<E, M>>,
    pub global_resp_headers: Vec<(String, String)>,
}

impl<E, M> HttpServerCore<E, M> {
    /// The invariant of a server: that of its router.
    pub open spec fn wf(&self) -> bool {
        self.router.wf()
    }

    /// A server with the given settings and no routes.
    pub fn new(config: HttpServerConfig) -> (server: Self)
        ensures
            server.wf(),
            server.config == config,
            server.router@.endpoints.len() == 0,
            pairs_view(server.global_resp_headers@) == cors_headers_of(config),
    {
        let headers = cors_headers(&config);
        HttpServerCore { config, router: HttpRouter::new(), global_resp_headers: headers }
    }

    /// Registers an endpoint at a path under a method, without middleware.
    pub fn serve(&mut self, path: &str, method: Method, ep: E)
        requires
            old(self).wf(),
            registrable(path@),
            path@.len() + 8 <= u32::MAX,
        ensures
            final(self).wf(),
            registers(
                old(self).router@,
                final(self).router@,
                path@,
                Some(method),
                ep,
                Seq::empty(),
                false,
            ),
            final(self).config == old(self).config,
            final(self).global_resp_headers == old(self).global_resp_headers,
    {
        let mut route = Route::new(&mut self.router, String::from_str(path));
        assert(route.middleware@ =~= Seq::empty());
        route.method(method, ep);
    }

    /// Registers an endpoint that serves a directory at a path and below.
    pub fn serve_dir(&mut self, path: &str, ep: E)
        requires
            old(self).wf(),
            registrable(path@),
            path@.len() + 8 <= u32::MAX,
        ensures
            final(self).wf(),
            registers(
                old(self).router@,
                final(self).router@,
                path@,
                Some(Method::Get),
                ep,
                Seq::empty(),
                true,
            ),
            final(self).config == old(self).config,
            final(self).global_resp_headers == old(self).global_resp_headers,
    {
        let mut route = Route::new(&mut self.router, String::from_str(path));
        assert(route.middleware@ =~= Seq::empty());
        route.serve_dir(ep);
    }

    /// Registers an endpoint that serves one file at a path.
    pub fn serve_file(&mut self, path: &str, ep: E)
        requires
            old(self).wf(),
            registrable(path@),
            path@.len() + 8 <= u32::MAX,
        ensures
            final(self).wf(),
            registers(
                old(self).router@,
                final(self).router@,
                path@,
                Some(Method::Get),
                ep,
                Seq::empty(),
                false,
            ),
            final(self).config == old(self).config,
            final(self).global_resp_headers == old(self).global_resp_headers,
    {
        let mut route = Route::new(&mut self.router, String::from_str(path));
        assert(route.middleware@ =~= Seq::empty());
        route.serve_file(ep);
    }
}

impl<E: Endpoint, M: Middleware<StripPrefixEndpoint<E>>> HttpServerCore<E, M> {
    /// Whether `response` can be the answer of the server to `req`: what an
    /// outcome of the router's dispatch is answered with.
    pub open spec fn may_answer_with(&self, req: Request, response: Response) -> bool {
        exists|out: HttpResult<Response>| #[trigger]
            self.router.may_dispatch(req, out) && answered(
                out,
                pairs_view(self.global_resp_headers@),
                response,
            )
    }

    /// Answers one request: routes it, runs what was selected, and sets the
    /// server's headers on the response. Whatever fails, a response comes
    /// back.
    pub fn handle(&self, req: Request) -> (response: Response)
        requires
            self.wf(),
        ensures
            self.may_answer_with(req, response),
    {
        let out = self.router.dispatch(req);
        answer(out, &self.global_resp_headers)
    }
}

} // verus!
