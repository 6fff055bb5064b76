//! The router: a table from (method, exact path) to a handler, filled once at
//! startup and immutable afterwards. Dispatch distinguishes an unknown path
//! (not found) from a known path with an unknown method (method not allowed).

use vstd::prelude::*;
use crate::http::Method;
use crate::handlers::HandlerId;

verus! {

/// One registered route.
pub struct Route {
    pub method: Method,
    pub path: String,
    pub handler: HandlerId,
}

/// Mathematical view of a route.
pub struct RouteV {
    pub method: Method,
    pub path: Seq<char>,
    pub handler: HandlerId,
}

impl View for Route {
    type V = RouteV;

    open spec fn view(&self) -> RouteV {
        RouteV { method: self.method, path: self.path@, handler: self.handler }
    }
}

/// Registering a (method, path) pair twice is a startup-fatal programmer
/// error.
#[derive(Clone, Copy, PartialEq, Eq, Structural, Debug)]
pub struct RouteConflict;

/// The outcome of dispatching one request.
#[derive(Clone, Copy, PartialEq, Eq, Structural, Debug)]
pub enum Dispatch {
    /// A route matched method and path: this handler produces the response.
    Found(HandlerId),
    /// No route has this path: a 404 response is synthesized.
    NotFound,
    /// Some route has this path, none with this method: 405.
    MethodNotAllowed,
}

/// One route of a group, before the group prefix is put in front of its
/// path.
pub struct GroupEntry {
    pub method: Method,
    pub path: String,
    pub handler: HandlerId,
}

/// Mathematical view of a group entry.
pub struct GroupEntryV {
    pub method: Method,
    pub path: Seq<char>,
    pub handler: HandlerId,
}

impl View for GroupEntry {
    type V = GroupEntryV;

    open spec fn view(&self) -> GroupEntryV {
        GroupEntryV { method: self.method, path: self.path@, handler: self.handler }
    }
}

/// The table that registering a route group leaves behind, entry by entry
/// in order, each under the group prefix; none if some entry conflicts with
/// the table as grown so far.
pub open spec fn add_group(
    rs: Seq<RouteV>,
    prefix: Seq<char>,
    es: Seq<GroupEntryV>,
) -> Option<Seq<RouteV>>
    decreases es.len(),
{
    if es.len() == 0 {
        Some(rs)
    } else if has_route(rs, es[0].method, prefix + es[0].path) {
        None
    } else {
        add_group(
            rs.push(RouteV { method: es[0].method, path: prefix + es[0].path, handler: es[0].handler }),
            prefix,
            es.drop_first(),
        )
    }
}

/// The route table.
pub struct Router {
    pub routes: Vec<Route>,
}

impl View for Router {
    type V = Seq<RouteV>;

    open spec fn view(&self) -> Seq<RouteV> {
        self.routes@.map_values(|r: Route| r@)
    }
}

/// Whether some route matches method and path exactly.
pub open spec fn has_route(rs: Seq<RouteV>, m: Method, p: Seq<char>) -> bool {
    exists|i: int| 0 <= i < rs.len() && rs[i].method == m && rs[i].path == p
}

/// Whether some route has this path, under any method.
pub open spec fn has_path(rs: Seq<RouteV>, p: Seq<char>) -> bool {
    exists|i: int| 0 <= i < rs.len() && #[trigger] rs[i].path == p
}

/// The handler of the first route matching method and path.
pub open spec fn route_handler(rs: Seq<RouteV>, m: Method, p: Seq<char>) -> HandlerId
    decreases rs.len(),
{
    if rs.len() == 0 {
        HandlerId::Info
    } else if rs[0].method == m && rs[0].path == p {
        rs[0].handler
    } else {
        route_handler(rs.drop_first(), m, p)
    }
}

/// What `dispatch` must decide for a table and a request line.
pub open spec fn spec_dispatch(rs: Seq<RouteV>, m: Method, p: Seq<char>) -> Dispatch {
    if has_route(rs, m, p) {
        Dispatch::Found(route_handler(rs, m, p))
    } else if has_path(rs, p) {
        Dispatch::MethodNotAllowed
    } else {
        Dispatch::NotFound
    }
}

proof fn lemma_route_handler_step(rs: Seq<RouteV>, m: Method, p: Seq<char>, i: int)
    requires
        0 <= i < rs.len(),
        rs[i].method == m && rs[i].path == p,
        forall|j: int| 0 <= j < i ==> !(rs[j].method == m && #[trigger] rs[j].path == p),
    ensures
        route_handler(rs, m, p) == rs[i].handler,
    decreases i,
{
    if i == 0 {
    } else {
        assert(!(rs[0].method == m && rs[0].path == p));
        lemma_route_handler_step(rs.drop_first(), m, p, i - 1);
        assert(rs.drop_first()[i - 1] == rs[i]);
    }
}

impl Router {
    /// An empty table.
    pub fn new() -> (r: Router)
        ensures
            r@ == Seq::<RouteV>::empty(),
    {
        let r = Router { routes: Vec::new() };
        proof {
            assert(r@ =~= Seq::<RouteV>::empty());
        }
        r
    }

    /// Registers a route. Fails, leaving the table unchanged, exactly when the
    /// same method and path are already present; otherwise appends the route.
    pub fn register(&mut self, method: Method, path: String, handler: HandlerId) -> (r: Result<
        (),
        RouteConflict,
    >)
        ensures
            match r {
                Ok(()) => !has_route(old(self)@, method, path@) && final(self)@ == old(self)@
                    .push(RouteV { method, path: path@, handler }),
                Err(RouteConflict) => has_route(old(self)@, method, path@) && final(self)@ == old(
                    self,
                )@,
            },
    {
        let ghost rsv = self@;
        let n = self.routes.len();
        let mut i: usize = 0;
        while i < n
            invariant
                rsv == self@,
                n == self.routes.len(),
                i <= n,
                forall|j: int|
                    0 <= j < i ==> !(rsv[j].method == method && #[trigger] rsv[j].path == path@),
            decreases n - i,
        {
            if self.routes[i].method == method && self.routes[i].path.eq(&path) {
                assert(rsv[i as int].method == method && rsv[i as int].path == path@);
                return Err(RouteConflict);
            }
            i = i + 1;
        }
        assert(!has_route(rsv, method, path@));
        self.routes.push(Route { method, path, handler });
        proof {
            assert(self@ =~= rsv.push(
                RouteV { method, path: self.routes@[rsv.len() as int].path@, handler },
            ));
        }
        Ok(())
    }

    /// Registers a whole route group: every entry's path is the group prefix
    /// followed by the entry's own path. All or nothing: on the first
    /// conflict the table is left exactly as it was. Registration is purely
    /// additive: routes already present are never altered.
    pub fn register_group(&mut self, prefix: &String, entries: Vec<GroupEntry>) -> (r: Result<
        (),
        RouteConflict,
    >)
        ensures
            match r {
                Ok(()) => add_group(
                    old(self)@,
                    prefix@,
                    entries@.map_values(|e: GroupEntry| e@),
                ) == Some(final(self)@),
                Err(RouteConflict) => add_group(
                    old(self)@,
                    prefix@,
                    entries@.map_values(|e: GroupEntry| e@),
                ) is None && final(self)@ == old(self)@,
            },
    {
        let ghost orig = self@;
        let ghost esv = entries@.map_values(|e: GroupEntry| e@);
        let orig_len = self.routes.len();
        proof {
            assert(esv.skip(0) =~= esv);
            assert(self@.subrange(0, orig_len as int) =~= orig);
        }
        let mut k: usize = 0;
        while k < entries.len()
            invariant
                k <= entries@.len(),
                orig == old(self)@,
                esv == entries@.map_values(|e: GroupEntry| e@),
                orig_len == orig.len(),
                orig_len <= self.routes@.len(),
                self@.subrange(0, orig_len as int) == orig,
                add_group(orig, prefix@, esv) == add_group(self@, prefix@, esv.skip(k as int)),
            decreases entries@.len() - k,
        {
            let ghost cur = self@;
            let method = entries[k].method;
            let handler = entries[k].handler;
            let full = prefix.clone().concat(entries[k].path.as_str());
            assert(full@ == prefix@ + esv[k as int].path);
            proof {
                assert(esv.skip(k as int)[0] == esv[k as int]);
                assert(esv.skip(k as int).drop_first() =~= esv.skip(k as int + 1));
            }
            match self.register(method, full, handler) {
                Ok(()) => {},
                Err(RouteConflict) => {
                    assert(add_group(cur, prefix@, esv.skip(k as int)) is None);
                    let ghost before_raw = self.routes@;
                    self.routes.truncate(orig_len);
                    proof {
                        assert(self@ =~= before_raw.subrange(0, orig_len as int).map_values(
                            |x: Route| x@,
                        ));
                        assert(before_raw.subrange(0, orig_len as int).map_values(|x: Route| x@)
                            =~= cur.subrange(0, orig_len as int));
                        assert(self@ == orig);
                        assert(add_group(orig, prefix@, esv) is None);
                    }
                    return Err(RouteConflict);
                },
            }
            proof {
                assert(self@.subrange(0, orig_len as int) =~= cur.subrange(0, orig_len as int));
            }
            k = k + 1;
        }
        proof {
            assert(esv.skip(esv.len() as int) =~= Seq::<GroupEntryV>::empty());
        }
        Ok(())
    }

    /// Decides which handler serves a request line, or which failure response
    /// to synthesize: 404 for an unknown path, 405 for a known path under an
    /// unregistered method.
    pub fn dispatch(&self, method: Method, path: &String) -> (r: Dispatch)
        ensures
            r == spec_dispatch(self@, method, path@),
    {
        let ghost rsv = self@;
        let n = self.routes.len();
        let mut path_seen: bool = false;
        let mut i: usize = 0;
        while i < n
            invariant
                rsv == self@,
                n == self.routes.len(),
                i <= n,
                forall|j: int|
                    0 <= j < i ==> !(rsv[j].method == method && #[trigger] rsv[j].path == path@),
                path_seen == exists|j: int| 0 <= j < i && #[trigger] rsv[j].path == path@,
            decreases n - i,
        {
            if self.routes[i].path.eq(path) {
                assert(rsv[i as int].path == path@);
                if self.routes[i].method == method {
                    proof {
                        lemma_route_handler_step(rsv, method, path@, i as int);
                    }
                    return Dispatch::Found(self.routes[i].handler);
                }
                path_seen = true;
            } else {
                assert(rsv[i as int].path != path@);
            }
            i = i + 1;
        }
        if path_seen {
            Dispatch::MethodNotAllowed
        } else {
            Dispatch::NotFound
        }
    }
}

} // verus!
