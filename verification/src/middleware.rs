//! The middleware layers' own logic: content-encoding negotiation for the
//! compression layer, preflight handling for the CORS layer, and the record
//! the tracing layer emits. The ordering of the layers lives in `pipeline`.

use vstd::prelude::*;
use crate::http::{find_header, has_header, Header, HeaderV, Method, RequestV, Response, ResponseV};
use crate::text::{eq_ignore_case, str_eq_ignore_case};
use crate::config::ServiceConfig;

verus! {

/// A transfer encoding the compression layer may choose.
#[derive(Clone, Copy, PartialEq, Eq, Structural, Debug)]
pub enum Encoding {
    /// The body goes out byte-identical to what the handler produced.
    Identity,
    /// The body is to be gzip-compressed on the wire.
    Gzip,
}

/// The element of a comma-separated list before any `;` parameters: the
/// characters of `e` up to the first `;`.
pub open spec fn before_semi(e: Seq<char>) -> Seq<char>
    decreases e.len(),
{
    if e.len() == 0 {
        Seq::empty()
    } else if e[0] == ';' {
        Seq::empty()
    } else {
        seq![e[0]] + before_semi(e.drop_first())
    }
}

/// Drops leading spaces and tabs.
pub open spec fn trim_front(s: Seq<char>) -> Seq<char>
    decreases s.len(),
{
    if s.len() > 0 && (s[0] == ' ' || s[0] == '\t') {
        trim_front(s.drop_first())
    } else {
        s
    }
}

/// Drops trailing spaces and tabs.
pub open spec fn trim_back(s: Seq<char>) -> Seq<char>
    decreases s.len(),
{
    if s.len() > 0 && (s.last() == ' ' || s.last() == '\t') {
        trim_back(s.drop_last())
    } else {
        s
    }
}

/// Whether one element of an accept-encoding list names this token: its part
/// before any `;` parameters, with surrounding blanks removed, equals the
/// token up to ASCII case.
pub open spec fn elem_names(e: Seq<char>, tok: Seq<char>) -> bool {
    eq_ignore_case(trim_back(trim_front(before_semi(e))), tok)
}

/// Whether the comma-separated list `acc + rest` (with `acc` the element
/// read so far) contains an element naming `tok`.
pub open spec fn scan_names(acc: Seq<char>, rest: Seq<char>, tok: Seq<char>) -> bool
    decreases rest.len(),
{
    if rest.len() == 0 {
        elem_names(acc, tok)
    } else if rest[0] == ',' {
        elem_names(acc, tok) || scan_names(Seq::empty(), rest.drop_first(), tok)
    } else {
        scan_names(acc.push(rest[0]), rest.drop_first(), tok)
    }
}

/// Whether a comma-separated header value contains an element naming `tok`.
pub open spec fn list_names(value: Seq<char>, tok: Seq<char>) -> bool {
    scan_names(Seq::empty(), value, tok)
}

fn before_semi_exec<'a>(e: &'a str, i: usize) -> (r: &'a str)
    requires
        i <= e@.len(),
    ensures
        r@ == e@.subrange(0, i as int) + before_semi(e@.skip(i as int)),
    decreases e@.len() - i,
{
    let n = e.unicode_len();
    if i == n {
        assert(e@.subrange(0, i as int) + before_semi(e@.skip(i as int)) =~= e@);
        e
    } else if e.get_char(i) == ';' {
        let r = e.substring_char(0, i);
        assert(e@.skip(i as int)[0] == ';');
        assert(r@ =~= e@.subrange(0, i as int) + before_semi(e@.skip(i as int)));
        r
    } else {
        let r = before_semi_exec(e, i + 1);
        proof {
            let rest = e@.skip(i as int);
            assert(rest[0] == e@[i as int]);
            assert(rest.drop_first() =~= e@.skip(i as int + 1));
            assert(e@.subrange(0, i as int + 1) =~= e@.subrange(0, i as int) + seq![e@[i as int]]);
            assert(e@.subrange(0, i as int + 1) + before_semi(e@.skip(i as int + 1)) =~= e@.subrange(
                0,
                i as int,
            ) + before_semi(rest));
        }
        r
    }
}

fn trim_front_exec<'a>(s: &'a str) -> (r: &'a str)
    ensures
        r@ == trim_front(s@),
    decreases s@.len(),
{
    let n = s.unicode_len();
    if n > 0 {
        let c = s.get_char(0);
        if c == ' ' || c == '\t' {
            let rest = s.substring_char(1, n);
            assert(rest@ =~= s@.drop_first());
            return trim_front_exec(rest);
        }
    }
    s
}

fn trim_back_exec<'a>(s: &'a str) -> (r: &'a str)
    ensures
        r@ == trim_back(s@),
    decreases s@.len(),
{
    let n = s.unicode_len();
    if n > 0 {
        let c = s.get_char(n - 1);
        if c == ' ' || c == '\t' {
            let rest = s.substring_char(0, n - 1);
            assert(rest@ =~= s@.drop_last());
            return trim_back_exec(rest);
        }
    }
    s
}

fn elem_names_exec(e: &str, tok: &str) -> (r: bool)
    ensures
        r == elem_names(e@, tok@),
{
    let cut = before_semi_exec(e, 0);
    proof {
        assert(e@.skip(0) =~= e@);
        assert(e@.subrange(0, 0) =~= Seq::<char>::empty());
        assert(cut@ =~= before_semi(e@));
    }
    let trimmed = trim_back_exec(trim_front_exec(cut));
    str_eq_ignore_case(trimmed, tok)
}

fn scan_names_exec(s: &str, start: usize, i: usize, tok: &str) -> (r: bool)
    requires
        start <= i <= s@.len(),
    ensures
        r == scan_names(s@.subrange(start as int, i as int), s@.skip(i as int), tok@),
    decreases s@.len() - i,
{
    let n = s.unicode_len();
    if i == n {
        elem_names_exec(s.substring_char(start, i), tok)
    } else if s.get_char(i) == ',' {
        let hit = elem_names_exec(s.substring_char(start, i), tok);
        if hit {
            proof {
                assert(s@.skip(i as int)[0] == ',');
            }
            true
        } else {
            let r = scan_names_exec(s, i + 1, i + 1, tok);
            proof {
                assert(s@.skip(i as int)[0] == ',');
                assert(s@.subrange(i as int + 1, i as int + 1) =~= Seq::<char>::empty());
                assert(s@.skip(i as int).drop_first() =~= s@.skip(i as int + 1));
            }
            r
        }
    } else {
        let r = scan_names_exec(s, start, i + 1, tok);
        proof {
            let rest = s@.skip(i as int);
            assert(rest[0] == s@[i as int] && rest[0] != ',');
            assert(rest.drop_first() =~= s@.skip(i as int + 1));
            assert(s@.subrange(start as int, i as int).push(s@[i as int]) =~= s@.subrange(
                start as int,
                i as int + 1,
            ));
        }
        r
    }
}

/// Whether a comma-separated header value names `tok` in one of its
/// elements.
pub fn list_names_exec(value: &str, tok: &str) -> (r: bool)
    ensures
        r == list_names(value@, tok@),
{
    let r = scan_names_exec(value, 0, 0, tok);
    proof {
        assert(value@.subrange(0, 0) =~= Seq::<char>::empty());
        assert(value@.skip(0) =~= value@);
    }
    r
}

/// Whether the request's accept-encoding header admits gzip: some element
/// names `gzip` or `*`. A request without the header admits nothing.
pub open spec fn gzip_accepted(req: RequestV) -> bool {
    match find_header(req.headers, "accept-encoding"@) {
        Some(v) => list_names(v, "gzip"@) || list_names(v, "*"@),
        None => false,
    }
}

/// The compression layer compresses exactly when compression is enabled, the
/// client admits gzip, the body is non-empty and at least the configured
/// threshold, and the response does not already carry a content-encoding.
pub open spec fn should_compress(cfg: ServiceConfig, req: RequestV, resp: ResponseV) -> bool {
    &&& cfg.compression_enabled
    &&& gzip_accepted(req)
    &&& resp.body.len() > 0
    &&& resp.body.len() >= cfg.compression_threshold
    &&& !has_header(resp.headers, "content-encoding"@)
}

/// The encoding the compression layer chooses for this response.
pub open spec fn chosen_encoding(cfg: ServiceConfig, req: RequestV, resp: ResponseV) -> Encoding {
    if should_compress(cfg, req, resp) {
        Encoding::Gzip
    } else {
        Encoding::Identity
    }
}

/// Decides the transfer encoding for one response.
pub fn negotiate(cfg: &ServiceConfig, req: &crate::http::Request, resp: &Response) -> (r: Encoding)
    ensures
        r == chosen_encoding(*cfg, req@, resp@),
{
    if !cfg.compression_enabled {
        return Encoding::Identity;
    }
    let accept = crate::http::lookup_header(&req.headers, "accept-encoding");
    let ok = match accept {
        Some(v) => {
            let named = list_names_exec(v.as_str(), "gzip");
            if named {
                true
            } else {
                list_names_exec(v.as_str(), "*")
            }
        },
        None => false,
    };
    if !ok {
        return Encoding::Identity;
    }
    if resp.body.unicode_len() == 0 {
        return Encoding::Identity;
    }
    if resp.body.unicode_len() < cfg.compression_threshold {
        return Encoding::Identity;
    }
    let prior = crate::http::lookup_header(&resp.headers, "content-encoding");
    match prior {
        Some(_) => Encoding::Identity,
        None => Encoding::Gzip,
    }
}

/// A preflight request: the OPTIONS method together with an origin header.
/// The CORS layer answers it itself; the router is never consulted.
pub open spec fn is_preflight(req: RequestV) -> bool {
    req.method == Method::Options && has_header(req.headers, "origin"@)
}

/// Checks whether a request is a CORS preflight.
pub fn check_preflight(req: &crate::http::Request) -> (r: bool)
    ensures
        r == is_preflight(req@),
{
    if !matches!(req.method, Method::Options) {
        return false;
    }
    let origin = crate::http::lookup_header(&req.headers, "origin");
    match origin {
        Some(_) => true,
        None => false,
    }
}

/// The permissive CORS answer to a preflight: 200, every origin, method and
/// header allowed, empty body.
pub open spec fn preflight_response() -> ResponseV {
    ResponseV {
        status: 200,
        headers: seq![
            HeaderV { name: "access-control-allow-origin"@, value: "*"@ },
            HeaderV { name: "access-control-allow-methods"@, value: "*"@ },
            HeaderV { name: "access-control-allow-headers"@, value: "*"@ },
        ],
        body: Seq::empty(),
    }
}

/// Builds the permissive preflight answer.
pub fn build_preflight_response() -> (r: Response)
    ensures
        r@ == preflight_response(),
{
    let mut headers: Vec<Header> = Vec::new();
    headers.push(
        Header {
            name: String::from_str("access-control-allow-origin"),
            value: String::from_str("*"),
        },
    );
    headers.push(
        Header {
            name: String::from_str("access-control-allow-methods"),
            value: String::from_str("*"),
        },
    );
    headers.push(
        Header {
            name: String::from_str("access-control-allow-headers"),
            value: String::from_str("*"),
        },
    );
    let r = Response { status: 200, headers, body: String::new() };
    proof {
        assert(r@.headers =~= preflight_response().headers);
        assert(r@.body =~= preflight_response().body);
    }
    r
}

/// A response on its way out through the CORS layer: the permissive
/// allow-origin header is appended.
pub open spec fn with_cors(resp: ResponseV) -> ResponseV {
    ResponseV {
        status: resp.status,
        headers: resp.headers.push(HeaderV { name: "access-control-allow-origin"@, value: "*"@ }),
        body: resp.body,
    }
}

/// Appends the permissive allow-origin header to an outbound response.
pub fn add_cors(resp: &mut Response)
    ensures
        final(resp)@ == with_cors(old(resp)@),
{
    let ghost before = resp@;
    resp.headers.push(
        Header {
            name: String::from_str("access-control-allow-origin"),
            value: String::from_str("*"),
        },
    );
    proof {
        assert(resp@.headers =~= with_cors(before).headers);
    }
}

/// What the tracing layer records of one request: method, path, the final
/// status (whoever produced it), when handling started, and how long it
/// took. It is emitted on every path through the pipeline, short-circuits
/// included.
pub struct TraceRecord {
    pub method: Method,
    pub path: String,
    pub status: u16,
    pub started_at: i64,
    pub duration: i64,
}

/// The deterministic part of a trace record: everything but the duration,
/// which depends on a second clock reading.
pub struct TraceObs {
    pub method: Method,
    pub path: Seq<char>,
    pub status: u16,
    pub started_at: int,
}

/// The observable part of a trace record.
pub open spec fn trace_obs(t: TraceRecord) -> TraceObs {
    TraceObs { method: t.method, path: t.path@, status: t.status, started_at: t.started_at as int }
}

} // verus!
