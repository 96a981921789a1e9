//! The builder that registers endpoints under a path.

use std::sync::Arc;
use vstd::prelude::*;
use vstd::string::{StrSliceExecFns, StringExecFns};
use super::endpoint::{share_all, MiddlewareEndpoint, StripPrefixEndpoint};
use super::router::{HttpRouter, Method, RouterView};
use super::table::registrable;
use super::text::same_text;

verus! {

/// An endpoint as a route registers it: behind its mount and its middleware.
pub type Registered<E, M> = MiddlewareEndpoint<StripPrefixEndpoint<E>, M>;

/// The pattern under which a prefix mount catches what lies below it.
pub open spec fn rest_pattern() -> Seq<char> {
    "*rest"@
}

/// The path of a sub-route: the parent's path and the sub-path, with one `/`
/// put between them where the first does not end in one and the second does
/// not begin with one. The sub-path `/` alone adds nothing more.
pub open spec fn joined(parent: Seq<char>, sub: Seq<char>) -> Seq<char> {
    let base = if (parent.len() > 0 && parent.last() == '/') || (sub.len() > 0 && sub[0] == '/') {
        parent
    } else {
        parent.push('/')
    };
    if sub == seq!['/'] {
        base
    } else {
        base + sub
    }
}

/// Joining two registrable texts that are short enough gives a registrable
/// text.
pub proof fn lemma_joined_registrable(parent: Seq<char>, sub: Seq<char>)
    requires
        registrable(parent),
        registrable(sub),
        parent.len() + sub.len() + 1 <= u32::MAX,
    ensures
        registrable(joined(parent, sub)),
{
    let whole = joined(parent, sub);
    assert forall|i: int| 0 <= i < whole.len() implies '\0' < #[trigger] whole[i] <= '\u{7f}' by {
        let base = if (parent.len() > 0 && parent.last() == '/') || (sub.len() > 0 && sub[0] == '/') {
            parent
        } else {
            parent.push('/')
        };
        if i < parent.len() {
            assert(whole[i] == parent[i]);
            assert(parent.contains(parent[i]));
        } else if i < base.len() {
            assert(whole[i] == '/');
        } else {
            assert(whole[i] == sub[i - base.len()]);
            assert(sub.contains(sub[i - base.len()]));
        }
    }
    if whole.contains('\0') {
        let i = choose|i: int| 0 <= i < whole.len() && whole[i] == '\0';
        assert('\0' < whole[i]);
    }
}

/// Computes the path of a sub-route: see `joined`.
pub fn join(parent: &str, sub: &str) -> (path: String)
    ensures
        path@ == joined(parent@, sub@),
{
    let mut path = String::from_str(parent);
    let parent_len = parent.unicode_len();
    let sub_len = sub.unicode_len();
    let parent_ends = parent_len > 0 && parent.get_char(parent_len - 1) == '/';
    let sub_begins = sub_len > 0 && sub.get_char(0) == '/';
    proof {
        reveal_strlit("/");
        assert("/"@ =~= seq!['/']);
    }
    if !parent_ends && !sub_begins {
        path.append("/");
        assert(path@ =~= parent@.push('/'));
    }
    if !same_text(sub, "/") {
        path.append(sub);
    }
    path
}

/// A handle on one path of a router, through which endpoints are registered
/// there. It carries the middleware that its registrations get, in the order
/// in which it was added, and says whether it is a prefix mount: a path that
/// stands for everything below it too.
pub struct Route<'a, E, M> {
    pub router: &'a mut HttpRouter<Registered<E, M>>,
    pub path: String,
    pub middleware: Vec<Arc<M>>,
    pub prefix: bool,
}

/// Whether `held` holds the endpoint `ep` behind the middleware `list`,
/// marked as standing behind a prefix mount or not.
pub open spec fn holds<E, M>(held: Registered<E, M>, ep: E, list: Seq<Arc<M>>, strip: bool) -> bool {
    &&& *held.endpoint.endpoint == ep
    &&& held.endpoint.strip == strip
    &&& held.middleware@ == list
}

/// Whether `after` is `before` with the registrations that a handle makes
/// for an endpoint. A plain handle makes one, at its path. A prefix mount
/// makes two, the first at its path and the second at the pattern for what
/// lies below it; both hold the same endpoint, marked as standing behind the
/// mount. Each holds the endpoint behind the middleware `list`.
pub open spec fn registers<E, M>(
    before: RouterView<Registered<E, M>>,
    after: RouterView<Registered<E, M>>,
    path: Seq<char>,
    method: Option<Method>,
    ep: E,
    list: Seq<Arc<M>>,
    prefix: bool,
) -> bool {
    if prefix {
        exists|first: Registered<E, M>, second: Registered<E, M>|
            #![trigger holds(first, ep, list, true), holds(second, ep, list, true)]
            holds(first, ep, list, true) && holds(second, ep, list, true) && after == before.put(
                path,
                method,
                first,
            ).put(joined(path, rest_pattern()), method, second)
    } else {
        exists|held: Registered<E, M>| #[trigger]
            holds(held, ep, list, false) && after == before.put(path, method, held)
    }
}

impl<'a, E, M> Route<'a, E, M> {
    /// The invariant of a handle: its router meets its own, and its path is
    /// one that the tables take and leaves room for the pattern of a prefix
    /// mount.
    pub open spec fn wf(&self) -> bool {
        &&& self.router.wf()
        &&& registrable(self.path@)
        &&& self.path@.len() + 8 <= u32::MAX
    }

    /// A handle on a path, without middleware.
    pub fn new(router: &'a mut HttpRouter<Registered<E, M>>, path: String) -> (route: Route<'a, E, M>)
        requires
            old(router).wf(),
            registrable(path@),
            path@.len() + 8 <= u32::MAX,
        ensures
            route.wf(),
            *route.router == *old(router),
            *final(router) == *final(route.router),
            route.path@ == path@,
            route.middleware@.len() == 0,
            !route.prefix,
    {
        Route { router, path, middleware: Vec::new(), prefix: false }
    }

    /// The path of this handle.
    pub fn path(&self) -> (path: &str)
        ensures
            path@ == self.path@,
    {
        self.path.as_str()
    }

    /// Adds a middleware behind those that this handle carries.
    pub fn with(&mut self, middleware: M) -> (ret: &mut Self)
        ensures
            *ret.router == *old(self).router,
            *final(ret.router) == *final(old(self).router),
            ret.path == old(self).path,
            ret.prefix == old(self).prefix,
            ret.middleware@.len() == old(self).middleware@.len() + 1,
            ret.middleware@.drop_last() == old(self).middleware@,
            *ret.middleware@.last() == middleware,
            *final(self) == *final(ret),
    {
        self.middleware.push(Arc::new(middleware));
        assert(self.middleware@.drop_last() =~= old(self).middleware@);
        self
    }

    /// Drops the middleware that this handle carries. What is registered
    /// already keeps its own.
    pub fn reset_middleware(&mut self) -> (ret: &mut Self)
        ensures
            *ret.router == *old(self).router,
            *final(ret.router) == *final(old(self).router),
            ret.path == old(self).path,
            ret.prefix == old(self).prefix,
            ret.middleware@.len() == 0,
            *final(self) == *final(ret),
    {
        self.middleware.clear();
        self
    }

    /// A handle on a path below this one: see `joined`. It starts with a
    /// copy of the middleware of this handle, registers in the same router,
    /// and is no prefix mount. What is then done to it leaves this handle's
    /// own path and middleware as they are.
    pub fn at<'b>(&'b mut self, path: &str) -> (sub: Route<'b, E, M>)
        requires
            old(self).wf(),
            registrable(path@),
            old(self).path@.len() + path@.len() + 9 <= u32::MAX,
        ensures
            sub.wf(),
            *sub.router == *old(self).router,
            sub.path@ == joined(old(self).path@, path@),
            sub.middleware@ == old(self).middleware@,
            !sub.prefix,
            *final(self).router == *final(sub.router),
            *final(final(self).router) == *final(old(self).router),
            final(self).path == old(self).path,
            final(self).middleware == old(self).middleware,
            final(self).prefix == old(self).prefix,
    {
        proof {
            lemma_joined_registrable(self.path@, path@);
        }
        Route {
            router: &mut *self.router,
            path: join(self.path.as_str(), path),
            middleware: share_all(self.middleware.as_slice()),
            prefix: false,
        }
    }

    /// Registers an endpoint at this handle's path, under one method or,
    /// with no method given, under every method.
    fn register(&mut self, method: Option<Method>, ep: E)
        requires
            old(self).wf(),
        ensures
            final(self).wf(),
            registers(
                old(self).router@,
                final(self).router@,
                old(self).path@,
                method,
                ep,
                old(self).middleware@,
                old(self).prefix,
            ),
            *final(final(self).router) == *final(old(self).router),
            final(self).path == old(self).path,
            final(self).middleware == old(self).middleware,
            final(self).prefix == old(self).prefix,
    {
        if self.prefix {
            let mounted = StripPrefixEndpoint::new(ep);
            let first = MiddlewareEndpoint::wrap_with_middleware(
                mounted.share(),
                self.middleware.as_slice(),
            );
            let second = MiddlewareEndpoint::wrap_with_middleware(mounted, self.middleware.as_slice());
            let below = join(self.path.as_str(), "*rest");
            proof {
                reveal_strlit("*rest");
                lemma_joined_registrable(self.path@, "*rest"@);
                assert(holds(first, ep, self.middleware@, true));
                assert(holds(second, ep, self.middleware@, true));
            }
            match method {
                Some(m) => {
                    self.router.add(self.path.as_str(), m, first);
                    self.router.add(below.as_str(), m, second);
                },
                None => {
                    self.router.add_all(self.path.as_str(), first);
                    self.router.add_all(below.as_str(), second);
                },
            }
        } else {
            let held = MiddlewareEndpoint::wrap_with_middleware(
                StripPrefixEndpoint::plain(ep),
                self.middleware.as_slice(),
            );
            proof {
                assert(holds(held, ep, self.middleware@, false));
            }
            match method {
                Some(m) => {
                    self.router.add(self.path.as_str(), m, held);
                },
                None => {
                    self.router.add_all(self.path.as_str(), held);
                },
            }
        }
    }

    /// Registers an endpoint at this handle's path under a method, behind
    /// the middleware that the handle carries. On a prefix mount it is
    /// registered twice, at the path itself and at the pattern for what lies
    /// below it, and sees requests with the path below the mount point.
    pub fn method(&mut self, method: Method, ep: E) -> (ret: &mut Self)
        requires
            old(self).wf(),
        ensures
            ret.wf(),
            registers(
                old(self).router@,
                ret.router@,
                old(self).path@,
                Some(method),
                ep,
                old(self).middleware@,
                old(self).prefix,
            ),
            *final(ret.router) == *final(old(self).router),
            ret.path == old(self).path,
            ret.middleware == old(self).middleware,
            ret.prefix == old(self).prefix,
            *final(self) == *final(ret),
    {
        self.register(Some(method), ep);
        self
    }

    /// Registers an endpoint at this handle's path under every method: as
    /// `method` does under one.
    pub fn all(&mut self, ep: E) -> (ret: &mut Self)
        requires
            old(self).wf(),
        ensures
            ret.wf(),
            registers(
                old(self).router@,
                ret.router@,
                old(self).path@,
                None,
                ep,
                old(self).middleware@,
                old(self).prefix,
            ),
            *final(ret.router) == *final(old(self).router),
            ret.path == old(self).path,
            ret.middleware == old(self).middleware,
            ret.prefix == old(self).prefix,
            *final(self) == *final(ret),
    {
        self.register(None, ep);
        self
    }

    /// Registers an endpoint for `GET` requests: `method` with `GET`.
    pub fn get(&mut self, ep: E) -> (ret: &mut Self)
        requires
            old(self).wf(),
        ensures
            ret.wf(),
            registers(
                old(self).router@,
                ret.router@,
                old(self).path@,
                Some(Method::Get),
                ep,
                old(self).middleware@,
                old(self).prefix,
            ),
            *final(ret.router) == *final(old(self).router),
            ret.path == old(self).path,
            ret.middleware == old(self).middleware,
            ret.prefix == old(self).prefix,
            *final(self) == *final(ret),
    {
        self.register(Some(Method::Get), ep);
        self
    }

    /// Registers an endpoint for `HEAD` requests: `method` with `HEAD`.
    pub fn head(&mut self, ep: E) -> (ret: &mut Self)
        requires
            old(self).wf(),
        ensures
            ret.wf(),
            registers(
                old(self).router@,
                ret.router@,
                old(self).path@,
                Some(Method::Head),
                ep,
                old(self).middleware@,
                old(self).prefix,
            ),
            *final(ret.router) == *final(old(self).router),
            ret.path == old(self).path,
            ret.middleware == old(self).middleware,
            ret.prefix == old(self).prefix,
            *final(self) == *final(ret),
    {
        self.register(Some(Method::Head), ep);
        self
    }

    /// Registers an endpoint for `PUT` requests: `method` with `PUT`.
    pub fn put(&mut self, ep: E) -> (ret: &mut Self)
        requires
            old(self).wf(),
        ensures
            ret.wf(),
            registers(
                old(self).router@,
                ret.router@,
                old(self).path@,
                Some(Method::Put),
                ep,
                old(self).middleware@,
                old(self).prefix,
            ),
            *final(ret.router) == *final(old(self).router),
            ret.path == old(self).path,
            ret.middleware == old(self).middleware,
            ret.prefix == old(self).prefix,
            *final(self) == *final(ret),
    {
        self.register(Some(Method::Put), ep);
        self
    }

    /// Registers an endpoint for `POST` requests: `method` with `POST`.
    pub fn post(&mut self, ep: E) -> (ret: &mut Self)
        requires
            old(self).wf(),
        ensures
            ret.wf(),
            registers(
                old(self).router@,
                ret.router@,
                old(self).path@,
                Some(Method::Post),
                ep,
                old(self).middleware@,
                old(self).prefix,
            ),
            *final(ret.router) == *final(old(self).router),
            ret.path == old(self).path,
            ret.middleware == old(self).middleware,
            ret.prefix == old(self).prefix,
            *final(self) == *final(ret),
    {
        self.register(Some(Method::Post), ep);
        self
    }

    /// Registers an endpoint for `DELETE` requests: `method` with `DELETE`.
    pub fn delete(&mut self, ep: E) -> (ret: &mut Self)
        requires
            old(self).wf(),
        ensures
            ret.wf(),
            registers(
                old(self).router@,
                ret.router@,
                old(self).path@,
                Some(Method::Delete),
                ep,
                old(self).middleware@,
                old(self).prefix,
            ),
            *final(ret.router) == *final(old(self).router),
            ret.path == old(self).path,
            ret.middleware == old(self).middleware,
            ret.prefix == old(self).prefix,
            *final(self) == *final(ret),
    {
        self.register(Some(Method::Delete), ep);
        self
    }

    /// Registers an endpoint for `OPTIONS` requests: `method` with `OPTIONS`.
    pub fn options(&mut self, ep: E) -> (ret: &mut Self)
        requires
            old(self).wf(),
        ensures
            ret.wf(),
            registers(
                old(self).router@,
                ret.router@,
                old(self).path@,
                Some(Method::Options),
                ep,
                old(self).middleware@,
                old(self).prefix,
            ),
            *final(ret.router) == *final(old(self).router),
            ret.path == old(self).path,
            ret.middleware == old(self).middleware,
            ret.prefix == old(self).prefix,
            *final(self) == *final(ret),
    {
        self.register(Some(Method::Options), ep);
        self
    }

    /// Registers an endpoint for `CONNECT` requests: `method` with `CONNECT`.
    pub fn connect(&mut self, ep: E) -> (ret: &mut Self)
        requires
            old(self).wf(),
        ensures
            ret.wf(),
            registers(
                old(self).router@,
                ret.router@,
                old(self).path@,
                Some(Method::Connect),
                ep,
                old(self).middleware@,
                old(self).prefix,
            ),
            *final(ret.router) == *final(old(self).router),
            ret.path == old(self).path,
            ret.middleware == old(self).middleware,
            ret.prefix == old(self).prefix,
            *final(self) == *final(ret),
    {
        self.register(Some(Method::Connect), ep);
        self
    }

    /// Registers an endpoint for `PATCH` requests: `method` with `PATCH`.
    pub fn patch(&mut self, ep: E) -> (ret: &mut Self)
        requires
            old(self).wf(),
        ensures
            ret.wf(),
            registers(
                old(self).router@,
                ret.router@,
                old(self).path@,
                Some(Method::Patch),
                ep,
                old(self).middleware@,
                old(self).prefix,
            ),
            *final(ret.router) == *final(old(self).router),
            ret.path == old(self).path,
            ret.middleware == old(self).middleware,
            ret.prefix == old(self).prefix,
            *final(self) == *final(ret),
    {
        self.register(Some(Method::Patch), ep);
        self
    }

    /// Registers an endpoint for `TRACE` requests: `method` with `TRACE`.
    pub fn trace(&mut self, ep: E) -> (ret: &mut Self)
        requires
            old(self).wf(),
        ensures
            ret.wf(),
            registers(
                old(self).router@,
                ret.router@,
                old(self).path@,
                Some(Method::Trace),
                ep,
                old(self).middleware@,
                old(self).prefix,
            ),
            *final(ret.router) == *final(old(self).router),
            ret.path == old(self).path,
            ret.middleware == old(self).middleware,
            ret.prefix == old(self).prefix,
            *final(self) == *final(ret),
    {
        self.register(Some(Method::Trace), ep);
        self
    }

    /// Registers an endpoint that serves a directory: under `GET`, through a
    /// prefix mount at this handle's path, so that it answers for the path
    /// and for everything below it.
    pub fn serve_dir(&mut self, ep: E)
        requires
            old(self).wf(),
        ensures
            final(self).wf(),
            registers(
                old(self).router@,
                final(self).router@,
                old(self).path@,
                Some(Method::Get),
                ep,
                old(self).middleware@,
                true,
            ),
            *final(final(self).router) == *final(old(self).router),
            final(self).path == old(self).path,
            final(self).middleware == old(self).middleware,
            final(self).prefix == old(self).prefix,
    {
        let mut mount = Route {
            router: &mut *self.router,
            path: String::from_str(self.path.as_str()),
            middleware: share_all(self.middleware.as_slice()),
            prefix: true,
        };
        mount.register(Some(Method::Get), ep);
    }

    /// Registers an endpoint that serves one file: under `GET`, at this
    /// handle's path.
    pub fn serve_file(&mut self, ep: E)
        requires
            old(self).wf(),
        ensures
            final(self).wf(),
            registers(
                old(self).router@,
                final(self).router@,
                old(self).path@,
                Some(Method::Get),
                ep,
                old(self).middleware@,
                old(self).prefix,
            ),
            *final(final(self).router) == *final(old(self).router),
            final(self).path == old(self).path,
            final(self).middleware == old(self).middleware,
            final(self).prefix == old(self).prefix,
    {
        self.register(Some(Method::Get), ep);
    }
}

/// A prefix mount answers for its path and for what lies below it with the
/// same endpoint: its two registrations, at the path and at the pattern
/// for the rest, take the next two places of the arena, and both places
/// hold the endpoint that was given, behind the same middleware.
pub proof fn law_prefix_mount_registers_both<E, M>(
    before: RouterView<Registered<E, M>>,
    after: RouterView<Registered<E, M>>,
    path: Seq<char>,
    method: Method,
    ep: E,
    list: Seq<Arc<M>>,
)
    requires
        registers(before, after, path, Some(method), ep, list, true),
    ensures
        after.endpoints.len() == before.endpoints.len() + 2,
        after.endpoints.take(before.endpoints.len() as int) == before.endpoints,
        holds(after.endpoints[before.endpoints.len() as int], ep, list, true),
        holds(after.endpoints[before.endpoints.len() as int + 1], ep, list, true),
        after.routes_for(method) == before.routes_for(method).push(
            (path, before.endpoints.len() as usize),
        ).push((joined(path, rest_pattern()), (before.endpoints.len() + 1) as usize)),
        forall|other: Method| other != method ==> after.routes_for(other) == before.routes_for(other),
        after.any_method == before.any_method,
{
    let (first, second) = choose|first: Registered<E, M>, second: Registered<E, M>|
        #![trigger holds(first, ep, list, true), holds(second, ep, list, true)]
        holds(first, ep, list, true) && holds(second, ep, list, true) && after == before.put(
            path,
            Some(method),
            first,
        ).put(joined(path, rest_pattern()), Some(method), second);
    assert(after.endpoints.take(before.endpoints.len() as int) =~= before.endpoints);
}

/// A plain handle registers once: its registration takes the next place of
/// the arena, which holds the endpoint that was given behind the handle's
/// middleware.
pub proof fn law_plain_route_registers_once<E, M>(
    before: RouterView<Registered<E, M>>,
    after: RouterView<Registered<E, M>>,
    path: Seq<char>,
    method: Method,
    ep: E,
    list: Seq<Arc<M>>,
)
    requires
        registers(before, after, path, Some(method), ep, list, false),
    ensures
        after.endpoints.len() == before.endpoints.len() + 1,
        after.endpoints.take(before.endpoints.len() as int) == before.endpoints,
        holds(after.endpoints[before.endpoints.len() as int], ep, list, false),
        after.routes_for(method) == before.routes_for(method).push(
            (path, before.endpoints.len() as usize),
        ),
        forall|other: Method| other != method ==> after.routes_for(other) == before.routes_for(other),
        after.any_method == before.any_method,
{
    let held = choose|held: Registered<E, M>| #[trigger]
        holds(held, ep, list, false) && after == before.put(path, Some(method), held);
    assert(after.endpoints.take(before.endpoints.len() as int) =~= before.endpoints);
}

} // verus!
