use assembly_backend::config::{load, ServiceConfig};
use assembly_backend::handlers::{health, info};
use assembly_backend::http::{lookup_header, Header, Method, Request};
use assembly_backend::middleware::{negotiate, Encoding};
use assembly_backend::pipeline::{build_service, LayerKind, Service};
use assembly_backend::router::Router;

fn default_config() -> ServiceConfig {
    load(None).unwrap()
}

fn request(method: Method, path: &str, headers: Vec<(&str, &str)>) -> Request {
    Request {
        method,
        path: path.to_string(),
        headers: headers
            .into_iter()
            .map(|(n, v)| Header { name: n.to_string(), value: v.to_string() })
            .collect(),
        body: None,
        context: Vec::new(),
    }
}

#[test]
fn health_scenario() {
    let service = build_service(default_config());
    let req = request(Method::Get, "/health", vec![]);
    let out = service.handle(&req, 1000);
    assert_eq!(out.response.status, 200);
    assert_eq!(
        out.response.body,
        "{\"status\":\"ok\",\"version\":\"0.1.0\",\"timestamp\":1000}"
    );
    assert!(out.response.body.contains("\"status\""));
    assert!(out.response.body.contains("\"version\""));
    assert!(out.response.body.contains("\"timestamp\""));
    let ct = lookup_header(&req.headers, "content-type");
    assert!(ct.is_none());
    let ct = lookup_header(&out.response.headers, "content-type");
    assert_eq!(ct.unwrap(), "application/json");
}

#[test]
fn health_timestamp_follows_clock() {
    let a = health(5);
    let b = health(7);
    let c = health(7);
    assert_eq!(a.body, "{\"status\":\"ok\",\"version\":\"0.1.0\",\"timestamp\":5}");
    assert_eq!(b.body, "{\"status\":\"ok\",\"version\":\"0.1.0\",\"timestamp\":7}");
    assert_eq!(b.body, c.body);
}

#[test]
fn health_negative_timestamp() {
    let r = health(-42);
    assert_eq!(r.body, "{\"status\":\"ok\",\"version\":\"0.1.0\",\"timestamp\":-42}");
}

#[test]
fn info_static_payload() {
    let service = build_service(default_config());
    let bare = request(Method::Get, "/", vec![]);
    let with_headers = request(Method::Get, "/", vec![("x-extra", "1"), ("accept", "*/*")]);
    let o1 = service.handle(&bare, 1);
    let o2 = service.handle(&with_headers, 99);
    assert_eq!(o1.response.status, 200);
    assert_eq!(o1.response.body, o2.response.body);
    assert_eq!(o1.response.body, info().body);
    assert_eq!(
        o1.response.body,
        "{\"name\":\"Assembly API\",\"version\":\"0.1.0\",\"description\":\"An agent social network built by an agent, for agents\",\"author\":\"Molt\"}"
    );
}

#[test]
fn unsupported_method_on_registered_path() {
    let service = build_service(default_config());
    let req = request(Method::Post, "/", vec![]);
    let out = service.handle(&req, 0);
    assert_eq!(out.response.status, 405);
}

#[test]
fn unknown_path_is_not_found() {
    let service = build_service(default_config());
    let req = request(Method::Get, "/does-not-exist", vec![]);
    let out = service.handle(&req, 0);
    assert_eq!(out.response.status, 404);
}

#[test]
fn every_outcome_is_traced() {
    let service = build_service(default_config());
    for (method, path) in [
        (Method::Get, "/health"),
        (Method::Get, "/nope"),
        (Method::Post, "/health"),
    ] {
        let req = request(method, path, vec![]);
        let out = service.handle(&req, 7);
        assert_eq!(out.traces.len(), 1);
        assert_eq!(out.traces[0].status, out.response.status);
        assert_eq!(out.traces[0].path, path);
        assert_eq!(out.traces[0].started_at, 7);
    }
}

#[test]
fn preflight_short_circuits() {
    let service = build_service(default_config());
    let req = request(Method::Options, "/", vec![("Origin", "https://example.com")]);
    let out = service.handle(&req, 3);
    assert_eq!(out.response.status, 200);
    assert_eq!(out.response.body, "");
    let allow = lookup_header(&out.response.headers, "access-control-allow-origin");
    assert_eq!(allow.unwrap(), "*");
    let methods = lookup_header(&out.response.headers, "access-control-allow-methods");
    assert_eq!(methods.unwrap(), "*");
    // still traced, and never compressed (empty body)
    assert_eq!(out.traces.len(), 1);
    assert_eq!(out.traces[0].status, 200);
    assert_eq!(out.encoding, Encoding::Identity);
}

#[test]
fn options_without_origin_reaches_router() {
    let service = build_service(default_config());
    let req = request(Method::Options, "/", vec![]);
    let out = service.handle(&req, 3);
    // not a preflight: the router decides, and OPTIONS is not registered
    assert_eq!(out.response.status, 405);
}

#[test]
fn cors_stamps_outbound_responses() {
    let service = build_service(default_config());
    let req = request(Method::Get, "/", vec![]);
    let out = service.handle(&req, 0);
    let allow = lookup_header(&out.response.headers, "access-control-allow-origin");
    assert_eq!(allow.unwrap(), "*");
}

#[test]
fn no_acceptable_encoding_round_trips_body() {
    let service = build_service(default_config());
    let req = request(Method::Get, "/", vec![]);
    let out = service.handle(&req, 0);
    assert_eq!(out.encoding, Encoding::Identity);
    assert_eq!(out.response.body, info().body);
}

#[test]
fn gzip_chosen_when_accepted() {
    let service = build_service(default_config());
    let req = request(Method::Get, "/", vec![("Accept-Encoding", "gzip, deflate")]);
    let out = service.handle(&req, 0);
    assert_eq!(out.encoding, Encoding::Gzip);
    // the body itself stays the handler's; the encoding is applied on the wire
    assert_eq!(out.response.body, info().body);
}

#[test]
fn encoding_negotiation_details() {
    let service = build_service(default_config());
    for (header, expected) in [
        ("identity", Encoding::Identity),
        ("GZIP", Encoding::Gzip),
        ("gzip;q=1.0, br", Encoding::Gzip),
        (" gzip ", Encoding::Gzip),
        ("*", Encoding::Gzip),
        ("br, deflate", Encoding::Identity),
        ("gzipped", Encoding::Identity),
    ] {
        let req = request(Method::Get, "/", vec![("accept-encoding", header)]);
        let out = service.handle(&req, 0);
        assert_eq!(out.encoding, expected, "accept-encoding: {}", header);
    }
}

#[test]
fn short_bodies_are_not_compressed() {
    let cfg = default_config();
    let req = request(Method::Get, "/", vec![("accept-encoding", "gzip")]);
    let resp = assembly_backend::http::Response {
        status: 200,
        headers: Vec::new(),
        body: "tiny".to_string(),
    };
    assert_eq!(negotiate(&cfg, &req, &resp), Encoding::Identity);
    let empty = assembly_backend::http::Response {
        status: 200,
        headers: Vec::new(),
        body: String::new(),
    };
    assert_eq!(negotiate(&cfg, &req, &empty), Encoding::Identity);
}

#[test]
fn already_encoded_bodies_are_left_alone() {
    let cfg = default_config();
    let req = request(Method::Get, "/", vec![("accept-encoding", "gzip")]);
    let resp = assembly_backend::http::Response {
        status: 200,
        headers: vec![Header {
            name: "Content-Encoding".to_string(),
            value: "br".to_string(),
        }],
        body: "x".repeat(100),
    };
    assert_eq!(negotiate(&cfg, &req, &resp), Encoding::Identity);
}

#[test]
fn disabled_compression_never_compresses() {
    let mut cfg = default_config();
    cfg.compression_enabled = false;
    let service = build_service(cfg);
    let req = request(Method::Get, "/", vec![("accept-encoding", "gzip")]);
    let out = service.handle(&req, 0);
    assert_eq!(out.encoding, Encoding::Identity);
}

#[test]
fn custom_layer_order_is_respected() {
    let mut router = Router::new();
    router
        .register(Method::Get, "/".to_string(), assembly_backend::handlers::HandlerId::Info)
        .unwrap();
    // only the CORS layer: nothing traces, but responses are still stamped
    let service = Service::build(default_config(), vec![LayerKind::Cors], router);
    let req = request(Method::Get, "/", vec![]);
    let out = service.handle(&req, 0);
    assert_eq!(out.response.status, 200);
    assert!(out.traces.is_empty());
    let allow = lookup_header(&out.response.headers, "access-control-allow-origin");
    assert_eq!(allow.unwrap(), "*");
    // a preflight still short-circuits ahead of the router
    let pre = request(Method::Options, "/", vec![("origin", "https://example.com")]);
    let out = service.handle(&pre, 0);
    assert_eq!(out.response.status, 200);
    assert_eq!(out.response.body, "");
    assert!(out.traces.is_empty());
}

#[test]
fn clock_is_wired() {
    let t = assembly_backend::clock::unix_now();
    // any moment this test can run is well past 2001
    assert!(t > 1_000_000_000);
    let service = build_service(default_config());
    let req = request(Method::Get, "/health", vec![]);
    let out = service.handle_request(&req);
    assert_eq!(out.traces.len(), 1);
    assert!(out.traces[0].started_at > 1_000_000_000);
    assert!(out.traces[0].duration >= 0);
}
