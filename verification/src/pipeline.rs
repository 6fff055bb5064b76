//! The service composition layer: an ordered middleware chain in front of
//! the router, assembled once and frozen. Every request passes the chain in
//! registered order inbound and in exact reverse order outbound; exactly one
//! handler, or a synthesized failure response, produces the body.

use vstd::prelude::*;
use crate::config::ServiceConfig;
use crate::handlers::{handler_output, run_handler, HandlerId};
use crate::http::{Request, RequestV, Response, ResponseV};
use crate::middleware::{
    build_preflight_response, check_preflight, chosen_encoding, is_preflight, negotiate,
    preflight_response, trace_obs, with_cors, Encoding, TraceObs, TraceRecord,
};
use crate::router::{spec_dispatch, Dispatch, Router, RouteV};
use crate::clock::unix_now;

verus! {

/// One layer of the middleware chain, by position-independent identity; the
/// chain's order is the `Vec` order it stands in.
#[derive(Clone, Copy, PartialEq, Eq, Structural, Debug)]
pub enum LayerKind {
    /// Records method, path, final status and timing on every path.
    Trace,
    /// Negotiates the transfer encoding of the outbound body.
    Compression,
    /// Answers preflights itself; stamps other responses on the way out.
    Cors,
}

/// The scaffold's fixed order: tracing outermost, then compression, then
/// CORS, then the router. A future auth or rate-limit layer goes between
/// CORS and the router.
pub open spec fn standard_order() -> Seq<LayerKind> {
    seq![LayerKind::Trace, LayerKind::Compression, LayerKind::Cors]
}

/// Builds the scaffold's middleware order.
pub fn standard_layers() -> (r: Vec<LayerKind>)
    ensures
        r@ == standard_order(),
{
    let mut v: Vec<LayerKind> = Vec::new();
    v.push(LayerKind::Trace);
    v.push(LayerKind::Compression);
    v.push(LayerKind::Cors);
    proof {
        assert(v@ =~= standard_order());
    }
    v
}

/// The synthesized response for an unknown path.
pub open spec fn not_found_response() -> ResponseV {
    ResponseV { status: 404, headers: Seq::empty(), body: Seq::empty() }
}

/// The synthesized response for a known path under an unregistered method.
pub open spec fn method_not_allowed_response() -> ResponseV {
    ResponseV { status: 405, headers: Seq::empty(), body: Seq::empty() }
}

/// What the router stage produces: the matched handler's output, or a
/// synthesized 404 or 405.
pub open spec fn spec_routed_response(rs: Seq<RouteV>, req: RequestV, now: int) -> ResponseV {
    match spec_dispatch(rs, req.method, req.path) {
        Dispatch::Found(h) => handler_output(h, now),
        Dispatch::NotFound => not_found_response(),
        Dispatch::MethodNotAllowed => method_not_allowed_response(),
    }
}

/// Everything the pipeline hands back for one request: the response, the
/// transfer encoding the compression layer chose for it, and the trace
/// records emitted on the way.
pub struct Outcome {
    pub response: Response,
    pub encoding: Encoding,
    pub traces: Vec<TraceRecord>,
}

/// Mathematical view of an outcome, with trace durations abstracted away:
/// a duration comes from a second clock reading.
pub struct OutcomeV {
    pub response: ResponseV,
    pub encoding: Encoding,
    pub traces: Seq<TraceObs>,
}

/// The observable part of an outcome.
pub open spec fn outcome_obs(o: Outcome) -> OutcomeV {
    OutcomeV {
        response: o.response@,
        encoding: o.encoding,
        traces: o.traces@.map_values(|t: TraceRecord| trace_obs(t)),
    }
}

/// The meaning of the middleware chain `layers` in front of router `rs`:
/// the inbound pass walks the layers left to right, the outbound pass
/// returns through them right to left. A layer may short-circuit (CORS on a
/// preflight), transform the outbound response (CORS stamping, compression
/// choosing an encoding) or record it (tracing); `now` is the clock reading
/// handling started with.
pub open spec fn spec_pipeline(
    cfg: ServiceConfig,
    layers: Seq<LayerKind>,
    rs: Seq<RouteV>,
    req: RequestV,
    now: int,
) -> OutcomeV
    decreases layers.len(),
{
    if layers.len() == 0 {
        OutcomeV {
            response: spec_routed_response(rs, req, now),
            encoding: Encoding::Identity,
            traces: Seq::empty(),
        }
    } else {
        let rest = layers.drop_first();
        match layers[0] {
            LayerKind::Trace => {
                let inner = spec_pipeline(cfg, rest, rs, req, now);
                OutcomeV {
                    response: inner.response,
                    encoding: inner.encoding,
                    traces: inner.traces.push(
                        TraceObs {
                            method: req.method,
                            path: req.path,
                            status: inner.response.status,
                            started_at: now,
                        },
                    ),
                }
            },
            LayerKind::Compression => {
                let inner = spec_pipeline(cfg, rest, rs, req, now);
                OutcomeV {
                    response: inner.response,
                    encoding: chosen_encoding(cfg, req, inner.response),
                    traces: inner.traces,
                }
            },
            LayerKind::Cors => {
                if is_preflight(req) {
                    OutcomeV {
                        response: preflight_response(),
                        encoding: Encoding::Identity,
                        traces: Seq::empty(),
                    }
                } else {
                    let inner = spec_pipeline(cfg, rest, rs, req, now);
                    OutcomeV {
                        response: with_cors(inner.response),
                        encoding: inner.encoding,
                        traces: inner.traces,
                    }
                }
            },
        }
    }
}

/// The assembled service: configuration, the frozen middleware order, and
/// the route table. Built once; immutable while serving.
pub struct Service {
    pub config: ServiceConfig,
    pub layers: Vec<LayerKind>,
    pub router: Router,
}

fn routed_response(router: &Router, req: &Request, now: i64) -> (r: Response)
    ensures
        r@ == spec_routed_response(router@, req@, now as int),
{
    match router.dispatch(req.method, &req.path) {
        Dispatch::Found(h) => run_handler(h, req, now),
        Dispatch::NotFound => {
            let r = Response { status: 404, headers: Vec::new(), body: String::new() };
            proof {
                assert(r@.headers =~= not_found_response().headers);
                assert(r@.body =~= not_found_response().body);
            }
            r
        },
        Dispatch::MethodNotAllowed => {
            let r = Response { status: 405, headers: Vec::new(), body: String::new() };
            proof {
                assert(r@.headers =~= method_not_allowed_response().headers);
                assert(r@.body =~= method_not_allowed_response().body);
            }
            r
        },
    }
}

fn run_layers(
    cfg: &ServiceConfig,
    layers: &Vec<LayerKind>,
    i: usize,
    router: &Router,
    req: &Request,
    now: i64,
) -> (r: Outcome)
    requires
        i <= layers@.len(),
    ensures
        outcome_obs(r) == spec_pipeline(*cfg, layers@.skip(i as int), router@, req@, now as int),
        forall|j: int| 0 <= j < r.traces@.len() ==> #[trigger] r.traces@[j].duration >= 0,
    decreases layers@.len() - i,
{
    let ghost tail = layers@.skip(i as int);
    if i == layers.len() {
        let r = Outcome {
            response: routed_response(router, req, now),
            encoding: Encoding::Identity,
            traces: Vec::new(),
        };
        proof {
            assert(tail.len() == 0);
            assert(outcome_obs(r).traces =~= spec_pipeline(
                *cfg,
                tail,
                router@,
                req@,
                now as int,
            ).traces);
        }
        r
    } else {
        proof {
            assert(tail[0] == layers@[i as int]);
            assert(tail.drop_first() =~= layers@.skip(i as int + 1));
        }
        match layers[i] {
            LayerKind::Trace => {
                let mut inner = run_layers(cfg, layers, i + 1, router, req, now);
                let finished = unix_now();
                let duration: i64 = if finished > now {
                    let wide: i128 = finished as i128 - now as i128;
                    if wide > i64::MAX as i128 {
                        i64::MAX
                    } else {
                        wide as i64
                    }
                } else {
                    0
                };
                let status = inner.response.status;
                let path = req.path.clone();
                let record = TraceRecord {
                    method: req.method,
                    path,
                    status,
                    started_at: now,
                    duration,
                };
                inner.traces.push(record);
                proof {
                    assert(outcome_obs(inner).traces =~= spec_pipeline(
                        *cfg,
                        tail,
                        router@,
                        req@,
                        now as int,
                    ).traces);
                }
                inner
            },
            LayerKind::Compression => {
                let inner = run_layers(cfg, layers, i + 1, router, req, now);
                let encoding = negotiate(cfg, req, &inner.response);
                Outcome { response: inner.response, encoding, traces: inner.traces }
            },
            LayerKind::Cors => {
                if check_preflight(req) {
                    let r = Outcome {
                        response: build_preflight_response(),
                        encoding: Encoding::Identity,
                        traces: Vec::new(),
                    };
                    proof {
                        assert(outcome_obs(r).traces =~= spec_pipeline(
                            *cfg,
                            tail,
                            router@,
                            req@,
                            now as int,
                        ).traces);
                    }
                    r
                } else {
                    let mut inner = run_layers(cfg, layers, i + 1, router, req, now);
                    crate::middleware::add_cors(&mut inner.response);
                    inner
                }
            },
        }
    }
}

impl Service {
    /// Assembles a service from its three parts; nothing is reordered or
    /// altered, and the result is what will serve every request.
    pub fn build(config: ServiceConfig, layers: Vec<LayerKind>, router: Router) -> (r: Service)
        ensures
            r.config == config,
            r.layers@ == layers@,
            r.router@ == router@,
    {
        Service { config, layers, router }
    }

    /// Handles one request, with `now` the clock reading handling started
    /// with: the entire configured chain runs exactly once per direction,
    /// and the outcome is the chain's meaning over this service's
    /// configuration, layers and routes. Trace durations come from a second
    /// clock reading and are only promised non-negative.
    pub fn handle(&self, req: &Request, now: i64) -> (r: Outcome)
        ensures
            outcome_obs(r) == spec_pipeline(
                self.config,
                self.layers@,
                self.router@,
                req@,
                now as int,
            ),
            forall|j: int| 0 <= j < r.traces@.len() ==> #[trigger] r.traces@[j].duration >= 0,
    {
        let r = run_layers(&self.config, &self.layers, 0, &self.router, req, now);
        proof {
            assert(self.layers@.skip(0) =~= self.layers@);
        }
        r
    }

    /// Handles one request, reading the clock itself: the outcome is the
    /// chain's meaning for some clock reading.
    pub fn handle_request(&self, req: &Request) -> (r: Outcome)
        ensures
            exists|t: int|
                outcome_obs(r) == spec_pipeline(self.config, self.layers@, self.router@, req@, t),
    {
        let now = unix_now();
        let r = self.handle(req, now);
        proof {
            assert(outcome_obs(r) == spec_pipeline(
                self.config,
                self.layers@,
                self.router@,
                req@,
                now as int,
            ));
        }
        r
    }
}

/// The scaffold's route table: the info handler at the root, the health
/// handler at `/health`, both under GET.
pub open spec fn scaffold_routes() -> Seq<RouteV> {
    seq![
        RouteV { method: crate::http::Method::Get, path: "/"@, handler: HandlerId::Info },
        RouteV { method: crate::http::Method::Get, path: "/health"@, handler: HandlerId::Health },
    ]
}

/// Assembles the scaffold: the standard middleware order in front of the
/// two scaffold routes, under the given configuration.
pub fn build_service(config: ServiceConfig) -> (s: Service)
    ensures
        s.config == config,
        s.layers@ == standard_order(),
        s.router@ == scaffold_routes(),
{
    let mut router = Router::new();
    proof {
        reveal_strlit("/");
        reveal_strlit("/health");
    }
    let first = router.register(
        crate::http::Method::Get,
        String::from_str("/"),
        HandlerId::Info,
    );
    match first {
        Ok(()) => {},
        Err(_) => {
            proof {
                assert(false);
            }
        },
    }
    let second = router.register(
        crate::http::Method::Get,
        String::from_str("/health"),
        HandlerId::Health,
    );
    match second {
        Ok(()) => {},
        Err(_) => {
            proof {
                assert("/"@.len() == 1 && "/health"@.len() == 7);
                assert(false);
            }
        },
    }
    proof {
        assert(router@ =~= scaffold_routes());
    }
    Service::build(config, standard_layers(), router)
}

/// Every request is traced, short-circuits included, and the chain's
/// stages compose as registered: under the standard order, a preflight is
/// answered by the CORS layer alone (the router untouched, the response
/// uncompressed since its body is empty), any other request gets the
/// routed response stamped by CORS on the way out with the encoding
/// negotiated on that outbound response, and in either case exactly one
/// trace record exists, carrying the request's method and path, the clock
/// reading, and the status of the response as it finally left.
pub proof fn lemma_standard_chain(cfg: ServiceConfig, rs: Seq<RouteV>, req: RequestV, now: int)
    ensures
        ({
            let o = spec_pipeline(cfg, standard_order(), rs, req, now);
            &&& o.traces.len() == 1
            &&& o.traces[0] == TraceObs {
                method: req.method,
                path: req.path,
                status: o.response.status,
                started_at: now,
            }
            &&& (is_preflight(req) ==> o.response == preflight_response() && o.encoding
                == Encoding::Identity)
            &&& (!is_preflight(req) ==> {
                let routed = spec_routed_response(rs, req, now);
                &&& o.response == with_cors(routed)
                &&& o.response.body == routed.body
                &&& o.encoding == chosen_encoding(cfg, req, with_cors(routed))
            })
        }),
{
    let layers = standard_order();
    let l1 = layers.drop_first();
    let l2 = l1.drop_first();
    let l3 = l2.drop_first();
    assert(l1 =~= seq![LayerKind::Compression, LayerKind::Cors]);
    assert(l2 =~= seq![LayerKind::Cors]);
    assert(l3 =~= Seq::<LayerKind>::empty());
    let o3 = spec_pipeline(cfg, l3, rs, req, now);
    let o2 = spec_pipeline(cfg, l2, rs, req, now);
    let o1 = spec_pipeline(cfg, l1, rs, req, now);
    let o = spec_pipeline(cfg, layers, rs, req, now);
    if is_preflight(req) {
        assert(o2.response == preflight_response());
        assert(o2.response.body.len() == 0);
        assert(!crate::middleware::should_compress(cfg, req, o2.response));
    } else {
        assert(o3.response == spec_routed_response(rs, req, now));
        assert(o2.response == with_cors(o3.response));
    }
    assert(o.traces =~= seq![
        TraceObs {
            method: req.method,
            path: req.path,
            status: o1.response.status,
            started_at: now,
        },
    ]);
}

/// An unknown path yields 404 and a known path under an unregistered
/// method yields 405, end to end: the synthesized status is what leaves
/// the whole standard chain for any request that is not a preflight.
pub proof fn lemma_not_found_and_not_allowed(
    cfg: ServiceConfig,
    rs: Seq<RouteV>,
    req: RequestV,
    now: int,
)
    requires
        !is_preflight(req),
    ensures
        ({
            let o = spec_pipeline(cfg, standard_order(), rs, req, now);
            &&& (!crate::router::has_path(rs, req.path) ==> o.response.status == 404)
            &&& (crate::router::has_path(rs, req.path) && !crate::router::has_route(
                rs,
                req.method,
                req.path,
            ) ==> o.response.status == 405)
        }),
{
    lemma_standard_chain(cfg, rs, req, now);
}

/// The scaffold end to end: through the whole standard chain over the
/// scaffold routes, a plain GET of `/health` is answered 200 with the
/// health body for the clock reading, and a plain GET of `/` is answered
/// 200 with the static info body.
pub proof fn lemma_scaffold_endpoints(cfg: ServiceConfig, req: RequestV, now: int)
    requires
        !is_preflight(req),
        req.method == crate::http::Method::Get,
    ensures
        ({
            let o = spec_pipeline(cfg, standard_order(), scaffold_routes(), req, now);
            &&& (req.path == "/health"@ ==> o.response.status == 200 && o.response.body
                == crate::handlers::health_body(now))
            &&& (req.path == "/"@ ==> o.response.status == 200 && o.response.body
                == crate::handlers::info_body())
        }),
{
    lemma_standard_chain(cfg, scaffold_routes(), req, now);
    reveal_strlit("/");
    reveal_strlit("/health");
    assert("/"@.len() == 1 && "/health"@.len() == 7);
    let rs = scaffold_routes();
    let tail = rs.drop_first();
    assert(tail =~= seq![
        RouteV { method: crate::http::Method::Get, path: "/health"@, handler: HandlerId::Health },
    ]);
    if req.path == "/health"@ {
        assert(rs[1].method == req.method && rs[1].path == req.path);
        assert(crate::router::has_route(rs, req.method, req.path));
        assert(rs[0].path != req.path);
        assert(crate::router::route_handler(rs, req.method, req.path)
            == crate::router::route_handler(tail, req.method, req.path));
        assert(tail[0].method == req.method && tail[0].path == req.path);
        assert(crate::router::route_handler(tail, req.method, req.path) == HandlerId::Health);
    }
    if req.path == "/"@ {
        assert(rs[0].method == req.method && rs[0].path == req.path);
        assert(crate::router::has_route(rs, req.method, req.path));
        assert(crate::router::route_handler(rs, req.method, req.path) == HandlerId::Info);
    }
}

/// If the request admits no encoding, the body leaves the whole chain
/// byte-identical to what the handler (or the synthesized failure
/// response) produced, and the chosen encoding is identity.
pub proof fn lemma_identity_round_trip(
    cfg: ServiceConfig,
    rs: Seq<RouteV>,
    req: RequestV,
    now: int,
)
    requires
        !crate::middleware::gzip_accepted(req),
        !is_preflight(req),
    ensures
        ({
            let o = spec_pipeline(cfg, standard_order(), rs, req, now);
            &&& o.encoding == Encoding::Identity
            &&& o.response.body == spec_routed_response(rs, req, now).body
        }),
{
    lemma_standard_chain(cfg, rs, req, now);
}

} // verus!
