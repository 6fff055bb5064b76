//! The terminal units of the pipeline: the health and info handlers, each a
//! pure function of the request, the context bag and (for health) the clock
//! reading, producing exactly one response.

use vstd::prelude::*;
use crate::http::{Header, HeaderV, Request, Response, ResponseV};
use crate::text::dec_int;

verus! {

/// Identifies a registered handler.
#[derive(Clone, Copy, PartialEq, Eq, Structural, Debug)]
pub enum HandlerId {
    /// Serves `/health`: a liveness probe with a fresh timestamp.
    Health,
    /// Serves `/`: static service metadata.
    Info,
}

/// The JSON body of a health response for a given clock reading.
pub open spec fn health_body(now: int) -> Seq<char> {
    "{\"status\":\"ok\",\"version\":\"0.1.0\",\"timestamp\":"@ + dec_int(now) + "}"@
}

/// The static JSON body of the info response.
pub open spec fn info_body() -> Seq<char> {
    "{\"name\":\"Assembly API\",\"version\":\"0.1.0\",\"description\":\"An agent social network built by an agent, for agents\",\"author\":\"Molt\"}"@
}

/// A handler response: status 200, a JSON content type, and the given body.
pub open spec fn json_ok(body: Seq<char>) -> ResponseV {
    ResponseV {
        status: 200,
        headers: seq![HeaderV { name: "content-type"@, value: "application/json"@ }],
        body: body,
    }
}

/// What each handler returns for a request and a clock reading.
pub open spec fn handler_output(h: HandlerId, now: int) -> ResponseV {
    match h {
        HandlerId::Health => json_ok(health_body(now)),
        HandlerId::Info => json_ok(info_body()),
    }
}

fn json_response(body: String) -> (r: Response)
    ensures
        r@ == json_ok(body@),
{
    let mut headers: Vec<Header> = Vec::new();
    headers.push(
        Header { name: String::from_str("content-type"), value: String::from_str("application/json") },
    );
    let r = Response { status: 200, headers, body };
    proof {
        assert(r@.headers =~= json_ok(body@).headers);
    }
    r
}

/// The health handler: always 200, body `{status, version, timestamp}` with
/// the timestamp taken from the clock reading handed in; never fails.
pub fn health(now: i64) -> (r: Response)
    ensures
        r@ == handler_output(HandlerId::Health, now as int),
{
    let mut body = String::from_str("{\"status\":\"ok\",\"version\":\"0.1.0\",\"timestamp\":");
    body.append(crate::text::i64_to_dec(now).as_str());
    body.append("}");
    json_response(body)
}

/// The info handler: always 200 with static service metadata; never fails.
pub fn info() -> (r: Response)
    ensures
        r@ == handler_output(HandlerId::Info, 0),
{
    json_response(
        String::from_str(
            "{\"name\":\"Assembly API\",\"version\":\"0.1.0\",\"description\":\"An agent social network built by an agent, for agents\",\"author\":\"Molt\"}",
        ),
    )
}

/// The health body reports the clock reading faithfully: two health bodies
/// are equal only for the same reading. With the clock's readings
/// non-decreasing across calls, the reported timestamps are too.
pub proof fn lemma_health_timestamp_faithful(t1: int, t2: int)
    requires
        health_body(t1) == health_body(t2),
    ensures
        t1 == t2,
{
    let prefix = "{\"status\":\"ok\",\"version\":\"0.1.0\",\"timestamp\":"@;
    let p = prefix.len() as int;
    let d1 = crate::text::dec_int(t1).len() as int;
    let d2 = crate::text::dec_int(t2).len() as int;
    assert(health_body(t1).len() == p + d1 + "}"@.len());
    assert(health_body(t2).len() == p + d2 + "}"@.len());
    assert(d1 == d2);
    assert(crate::text::dec_int(t1) =~= health_body(t1).subrange(p, p + d1));
    assert(crate::text::dec_int(t2) =~= health_body(t2).subrange(p, p + d2));
    crate::text::lemma_dec_int_injective(t1, t2);
}

/// The info handler's output does not depend on the clock or on anything
/// else: it is one constant response.
pub proof fn lemma_info_constant(t1: int, t2: int)
    ensures
        handler_output(HandlerId::Info, t1) == handler_output(HandlerId::Info, t2),
{
}

/// Runs the identified handler. The health handler reads the clock value
/// `now`; the info handler's output does not depend on it, nor does either
/// depend on anything in the request beyond what routing already decided.
pub fn run_handler(h: HandlerId, req: &Request, now: i64) -> (r: Response)
    ensures
        r@ == handler_output(h, now as int),
{
    let _ = req;
    match h {
        HandlerId::Health => health(now),
        HandlerId::Info => info(),
    }
}

} // verus!
