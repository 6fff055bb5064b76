use assembly_backend::http::{lookup_header, Header};
use assembly_backend::shutdown::{Lifecycle, Phase};
use assembly_backend::text::{i64_to_dec, str_eq_ignore_case, u64_to_dec};

#[test]
fn decimal_rendering() {
    assert_eq!(u64_to_dec(0), "0");
    assert_eq!(u64_to_dec(7), "7");
    assert_eq!(u64_to_dec(1234567890), "1234567890");
    assert_eq!(u64_to_dec(u64::MAX), "18446744073709551615");
    assert_eq!(i64_to_dec(0), "0");
    assert_eq!(i64_to_dec(-1), "-1");
    assert_eq!(i64_to_dec(-42), "-42");
    assert_eq!(i64_to_dec(i64::MIN), "-9223372036854775808");
    assert_eq!(i64_to_dec(i64::MAX), "9223372036854775807");
}

#[test]
fn case_insensitive_comparison() {
    assert!(str_eq_ignore_case("Content-Type", "content-type"));
    assert!(str_eq_ignore_case("GZIP", "gzip"));
    assert!(str_eq_ignore_case("", ""));
    assert!(!str_eq_ignore_case("gzip", "gzipped"));
    assert!(!str_eq_ignore_case("a", "b"));
}

#[test]
fn header_lookup_is_case_insensitive_and_ordered() {
    let headers = vec![
        Header { name: "Accept".to_string(), value: "text/html".to_string() },
        Header { name: "X-Many".to_string(), value: "first".to_string() },
        Header { name: "x-many".to_string(), value: "second".to_string() },
    ];
    assert_eq!(lookup_header(&headers, "accept").unwrap(), "text/html");
    assert_eq!(lookup_header(&headers, "X-MANY").unwrap(), "first");
    assert!(lookup_header(&headers, "x-missing").is_none());
}

#[test]
fn requests_admitted_only_while_running() {
    let mut life = Lifecycle::new();
    assert_eq!(life.phase, Phase::Running);
    assert!(life.start_request());
    assert!(life.start_request());
    assert_eq!(life.in_flight, 2);
    life.signal_shutdown();
    assert_eq!(life.phase, Phase::Draining);
    // no new connections after the signal
    assert!(!life.start_request());
    assert_eq!(life.in_flight, 2);
}

#[test]
fn request_started_before_signal_completes() {
    let mut life = Lifecycle::new();
    assert!(life.start_request());
    life.signal_shutdown();
    assert_eq!(life.phase, Phase::Draining);
    // the in-flight request still finishes, then the service stops
    life.finish_request();
    assert_eq!(life.in_flight, 0);
    assert_eq!(life.phase, Phase::Stopped);
}

#[test]
fn idle_service_stops_at_once() {
    let mut life = Lifecycle::new();
    life.signal_shutdown();
    assert_eq!(life.phase, Phase::Stopped);
    assert!(!life.start_request());
}

#[test]
fn deadline_bounds_the_drain() {
    let mut life = Lifecycle::new();
    assert!(life.start_request());
    life.signal_shutdown();
    assert_eq!(life.phase, Phase::Draining);
    life.deadline();
    assert_eq!(life.phase, Phase::Stopped);
}
