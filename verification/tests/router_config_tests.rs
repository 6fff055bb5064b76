use assembly_backend::config::{load, parse_bind_addr, BindAddr, ConfigError, LogLevel};
use assembly_backend::handlers::HandlerId;
use assembly_backend::http::Method;
use assembly_backend::router::{Dispatch, GroupEntry, RouteConflict, Router};

#[test]
fn register_and_dispatch() {
    let mut r = Router::new();
    r.register(Method::Get, "/a".to_string(), HandlerId::Info).unwrap();
    r.register(Method::Post, "/a".to_string(), HandlerId::Health).unwrap();
    assert_eq!(
        r.dispatch(Method::Get, &"/a".to_string()),
        Dispatch::Found(HandlerId::Info)
    );
    assert_eq!(
        r.dispatch(Method::Post, &"/a".to_string()),
        Dispatch::Found(HandlerId::Health)
    );
    assert_eq!(
        r.dispatch(Method::Delete, &"/a".to_string()),
        Dispatch::MethodNotAllowed
    );
    assert_eq!(r.dispatch(Method::Get, &"/b".to_string()), Dispatch::NotFound);
}

#[test]
fn duplicate_registration_conflicts() {
    let mut r = Router::new();
    r.register(Method::Get, "/a".to_string(), HandlerId::Info).unwrap();
    let err = r.register(Method::Get, "/a".to_string(), HandlerId::Health);
    assert_eq!(err, Err(RouteConflict));
    // the table is unchanged: the original handler still answers
    assert_eq!(
        r.dispatch(Method::Get, &"/a".to_string()),
        Dispatch::Found(HandlerId::Info)
    );
}

#[test]
fn route_groups_share_a_prefix() {
    let mut r = Router::new();
    r.register(Method::Get, "/".to_string(), HandlerId::Info).unwrap();
    let entries = vec![
        GroupEntry { method: Method::Get, path: "/status".to_string(), handler: HandlerId::Health },
        GroupEntry { method: Method::Get, path: "/about".to_string(), handler: HandlerId::Info },
    ];
    r.register_group(&"/api/v1".to_string(), entries).unwrap();
    assert_eq!(
        r.dispatch(Method::Get, &"/api/v1/status".to_string()),
        Dispatch::Found(HandlerId::Health)
    );
    assert_eq!(
        r.dispatch(Method::Get, &"/api/v1/about".to_string()),
        Dispatch::Found(HandlerId::Info)
    );
    // additive: the pre-existing route is untouched
    assert_eq!(
        r.dispatch(Method::Get, &"/".to_string()),
        Dispatch::Found(HandlerId::Info)
    );
    assert_eq!(r.dispatch(Method::Get, &"/status".to_string()), Dispatch::NotFound);
}

#[test]
fn conflicting_group_rolls_back_entirely() {
    let mut r = Router::new();
    r.register(Method::Get, "/api/v1/status".to_string(), HandlerId::Info).unwrap();
    let entries = vec![
        GroupEntry { method: Method::Get, path: "/fresh".to_string(), handler: HandlerId::Health },
        GroupEntry { method: Method::Get, path: "/status".to_string(), handler: HandlerId::Health },
    ];
    let out = r.register_group(&"/api/v1".to_string(), entries);
    assert_eq!(out, Err(RouteConflict));
    // all or nothing: the non-conflicting entry was rolled back too
    assert_eq!(
        r.dispatch(Method::Get, &"/api/v1/fresh".to_string()),
        Dispatch::NotFound
    );
    assert_eq!(
        r.dispatch(Method::Get, &"/api/v1/status".to_string()),
        Dispatch::Found(HandlerId::Info)
    );
}

#[test]
fn defaults_without_override() {
    let cfg = load(None).unwrap();
    assert_eq!(cfg.bind, BindAddr { o1: 127, o2: 0, o3: 0, o4: 1, port: 3000 });
    assert!(cfg.cors_permissive);
    assert!(cfg.compression_enabled);
    assert_eq!(cfg.compression_threshold, 32);
    assert_eq!(cfg.log_level, LogLevel::Info);
}

#[test]
fn override_parses_address() {
    let cfg = load(Some("0.0.0.0:8080")).unwrap();
    assert_eq!(cfg.bind, BindAddr { o1: 0, o2: 0, o3: 0, o4: 0, port: 8080 });
    let cfg = load(Some("192.168.1.17:65535")).unwrap();
    assert_eq!(cfg.bind, BindAddr { o1: 192, o2: 168, o3: 1, o4: 17, port: 65535 });
}

#[test]
fn malformed_override_is_invalid() {
    for bad in [
        "",
        "nonsense",
        "1.2.3:80",
        "1.2.3.4",
        "1.2.3.4:",
        "1.2.3.4:70000",
        "256.0.0.1:80",
        "01.2.3.4:80",
        "1.2.3.4:080",
        "1.2.3.4.5:80",
        "1..2.3:80",
        "1.2.3.4:80x",
        " 1.2.3.4:80",
    ] {
        assert_eq!(load(Some(bad)), Err(ConfigError::Invalid), "input: {:?}", bad);
    }
}

#[test]
fn parse_bind_addr_round_trips() {
    let addr = parse_bind_addr("127.0.0.1:3000").unwrap();
    assert_eq!(addr, BindAddr { o1: 127, o2: 0, o3: 0, o4: 1, port: 3000 });
    assert_eq!(parse_bind_addr("255.255.255.255:0").unwrap().port, 0);
    assert!(parse_bind_addr("255.255.255.256:1").is_none());
}
