//! The configuration provider's verified part: the settings record, its
//! documented defaults, and parsing of an overriding bind address. Reading
//! the process environment stays outside the library; it hands in plain
//! optional strings.

use vstd::prelude::*;
use crate::text::{dec_nat, digit_char};

verus! {

/// An IPv4 socket address to bind.
#[derive(Clone, Copy, PartialEq, Eq, Structural, Debug)]
pub struct BindAddr {
    pub o1: u8,
    pub o2: u8,
    pub o3: u8,
    pub o4: u8,
    pub port: u16,
}

/// How much the tracing layer logs.
#[derive(Clone, Copy, PartialEq, Eq, Structural, Debug)]
pub enum LogLevel {
    Error,
    Warn,
    Info,
    Debug,
    Trace,
}

/// Startup-fatal configuration failure: a value was present but malformed.
#[derive(Clone, Copy, PartialEq, Eq, Structural, Debug)]
pub enum ConfigError {
    Invalid,
}

/// Immutable runtime settings, loaded once before the service is assembled.
#[derive(Clone, Copy, PartialEq, Eq, Structural, Debug)]
pub struct ServiceConfig {
    pub bind: BindAddr,
    /// Permissive CORS today; an explicit allow-list may replace the layer's
    /// policy without moving the layer.
    pub cors_permissive: bool,
    pub compression_enabled: bool,
    /// Bodies shorter than this are never compressed.
    pub compression_threshold: usize,
    pub log_level: LogLevel,
}

/// The documented defaults: bind 127.0.0.1:3000, permissive CORS,
/// compression enabled for bodies of at least 32 bytes, info-level logging.
pub open spec fn default_config() -> ServiceConfig {
    ServiceConfig {
        bind: BindAddr { o1: 127, o2: 0, o3: 0, o4: 1, port: 3000 },
        cors_permissive: true,
        compression_enabled: true,
        compression_threshold: 32,
        log_level: LogLevel::Info,
    }
}

/// The canonical text of a bind address, `a.b.c.d:port` with each number in
/// canonical decimal.
pub open spec fn addr_chars(b: BindAddr) -> Seq<char> {
    dec_nat(b.o1 as nat) + "."@ + dec_nat(b.o2 as nat) + "."@ + dec_nat(b.o3 as nat) + "."@
        + dec_nat(b.o4 as nat) + ":"@ + dec_nat(b.port as nat)
}

/// The numeric value of a decimal digit, or none.
pub open spec fn digit_val(c: char) -> Option<int> {
    if c == '0' {
        Some(0int)
    } else if c == '1' {
        Some(1int)
    } else if c == '2' {
        Some(2int)
    } else if c == '3' {
        Some(3int)
    } else if c == '4' {
        Some(4int)
    } else if c == '5' {
        Some(5int)
    } else if c == '6' {
        Some(6int)
    } else if c == '7' {
        Some(7int)
    } else {
        if c == '8' {
            Some(8int)
        } else if c == '9' {
            Some(9int)
        } else {
            None
        }
    }
}

/// The bind-address grammar, read left to right: a number, up to `bound`,
/// accumulated from `acc` over the characters of `s` until the expected
/// separator; `done` are the octets already read. Numbers are canonical:
/// a digit is required first, and a leading zero ends the number at once.
/// This function is the grammar; `load` is specified against it.
pub open spec fn scan_addr(
    s: Seq<char>,
    acc: Option<int>,
    done: Seq<int>,
) -> Option<BindAddr>
    decreases s.len(),
{
    let bound: int = if done.len() == 4 { 65535 } else { 255 };
    if s.len() == 0 {
        if done.len() == 4 && acc is Some {
            Some(
                BindAddr {
                    o1: done[0] as u8,
                    o2: done[1] as u8,
                    o3: done[2] as u8,
                    o4: done[3] as u8,
                    port: acc->0 as u16,
                },
            )
        } else {
            None
        }
    } else if s[0] == '.' && done.len() < 3 && acc is Some {
        scan_addr(s.drop_first(), None, done.push(acc->0))
    } else if s[0] == ':' && done.len() == 3 && acc is Some {
        scan_addr(s.drop_first(), None, done.push(acc->0))
    } else if digit_val(s[0]) is Some {
        let d = digit_val(s[0])->0;
        match acc {
            None => {
                if d == 0 && s.len() > 1 && digit_val(s[1]) is Some {
                    None
                } else {
                    scan_addr(s.drop_first(), Some(d), done)
                }
            },
            Some(v) => {
                if v * 10 + d > bound {
                    None
                } else {
                    scan_addr(s.drop_first(), Some(v * 10 + d), done)
                }
            },
        }
    } else {
        None
    }
}

/// The bind address denoted by a string, if it is well-formed:
/// `a.b.c.d:port`, octets up to 255, port up to 65535, each in canonical
/// decimal; see `scan_addr` for the grammar.
pub open spec fn parse_addr(s: Seq<char>) -> Option<BindAddr> {
    scan_addr(s, None, Seq::empty())
}

proof fn lemma_digit_val_of_digit_char(d: int)
    requires
        0 <= d < 10,
    ensures
        digit_val(digit_char(d)) == Some(d),
        digit_char(d) != '.',
        digit_char(d) != ':',
{
}

/// Scanning the canonical decimal of `n` accumulates exactly `n`: the scan
/// of `dec_nat(n) + rest` from an empty accumulator continues as the scan
/// of `rest` with `n` accumulated.
proof fn lemma_scan_number(n: nat, rest: Seq<char>, done: Seq<int>)
    requires
        n <= (if done.len() == 4 { 65535int } else { 255int }),
        n == 0 && rest.len() > 0 ==> digit_val(rest[0]) is None,
    ensures
        scan_addr(dec_nat(n) + rest, None, done) == scan_addr(rest, Some(n as int), done),
    decreases n,
{
    let s = dec_nat(n) + rest;
    if n < 10 {
        assert(dec_nat(n) =~= seq![digit_char(n as int)]);
        assert(s[0] == digit_char(n as int));
        lemma_digit_val_of_digit_char(n as int);
        if n == 0 && s.len() > 1 {
            assert(s[1] == rest[0]);
        }
        assert(s.drop_first() =~= rest);
    } else {
        let head = n / 10;
        let tail_digit = digit_char((n % 10) as int);
        let mid = seq![tail_digit] + rest;
        assert(s =~= dec_nat(head) + mid);
        lemma_scan_number(head, mid, done);
        assert(mid[0] == tail_digit);
        lemma_digit_val_of_digit_char((n % 10) as int);
        vstd::arithmetic::div_mod::lemma_fundamental_div_mod(n as int, 10);
        assert((head as int) * 10 + (n % 10) == n as int);
        assert(mid.drop_first() =~= rest);
    }
}

/// The grammar accepts the canonical text of every bind address and reads
/// it back unchanged: `parse_addr` is a left inverse of `addr_chars`.
pub proof fn lemma_parse_addr_round_trip(b: BindAddr)
    ensures
        parse_addr(addr_chars(b)) == Some(b),
{
    reveal_strlit(".");
    reveal_strlit(":");
    let dot = "."@;
    let colon = ":"@;
    assert(dot.len() == 1 && dot[0] == '.');
    assert(colon.len() == 1 && colon[0] == ':');
    let port_digits = dec_nat(b.port as nat);
    let r4 = colon + port_digits;
    let r3 = dot + dec_nat(b.o4 as nat) + r4;
    let r2 = dot + dec_nat(b.o3 as nat) + r3;
    let r1 = dot + dec_nat(b.o2 as nat) + r2;
    let s = addr_chars(b);
    assert(s =~= dec_nat(b.o1 as nat) + r1);
    let d0 = Seq::<int>::empty();
    let d1 = d0.push(b.o1 as int);
    let d2 = d1.push(b.o2 as int);
    let d3 = d2.push(b.o3 as int);
    let d4 = d3.push(b.o4 as int);

    assert(r1[0] == '.');
    lemma_scan_number(b.o1 as nat, r1, d0);
    assert(scan_addr(s, None, d0) == scan_addr(r1, Some(b.o1 as int), d0));
    assert(r1.drop_first() =~= dec_nat(b.o2 as nat) + r2);

    assert(r2[0] == '.');
    lemma_scan_number(b.o2 as nat, r2, d1);
    assert(r2.drop_first() =~= dec_nat(b.o3 as nat) + r3);

    assert(r3[0] == '.');
    lemma_scan_number(b.o3 as nat, r3, d2);
    assert(r3.drop_first() =~= dec_nat(b.o4 as nat) + r4);

    assert(r4[0] == ':');
    lemma_scan_number(b.o4 as nat, r4, d3);
    assert(r4.drop_first() =~= port_digits + Seq::<char>::empty());

    lemma_scan_number(b.port as nat, Seq::empty(), d4);
    assert(scan_addr(port_digits + Seq::<char>::empty(), None, d4) == scan_addr(
        Seq::empty(),
        Some(b.port as int),
        d4,
    ));
    assert(scan_addr(Seq::<char>::empty(), Some(b.port as int), d4) == Some(b));
}

fn digit_val_exec(c: char) -> (r: Option<u32>)
    ensures
        r == match digit_val(c) {
            Some(d) => Some(d as u32),
            None => None::<u32>,
        },
        r matches Some(d) ==> d == digit_val(c)->0 && d <= 9,
{
    if c == '0' {
        Some(0)
    } else if c == '1' {
        Some(1)
    } else if c == '2' {
        Some(2)
    } else if c == '3' {
        Some(3)
    } else if c == '4' {
        Some(4)
    } else if c == '5' {
        Some(5)
    } else if c == '6' {
        Some(6)
    } else if c == '7' {
        Some(7)
    } else if c == '8' {
        Some(8)
    } else if c == '9' {
        Some(9)
    } else {
        None
    }
}

spec fn acc_spec(acc: Option<u32>) -> Option<int> {
    match acc {
        Some(v) => Some(v as int),
        None => None,
    }
}

spec fn done_spec(done: Seq<u8>) -> Seq<int> {
    done.map_values(|x: u8| x as int)
}

fn scan_addr_exec(s: &str, i: usize, acc: Option<u32>, done: Vec<u8>) -> (r: Option<BindAddr>)
    requires
        i <= s@.len(),
        done@.len() <= 4,
        acc matches Some(v) ==> v <= (if done@.len() == 4 { 65535int } else { 255int }),
    ensures
        r == scan_addr(s@.skip(i as int), acc_spec(acc), done_spec(done@)),
    decreases s@.len() - i,
{
    let ghost rest = s@.skip(i as int);
    let n = s.unicode_len();
    if i == n {
        assert(rest.len() == 0);
        if done.len() == 4 {
            match acc {
                Some(port) => {
                    let r = BindAddr {
                        o1: done[0],
                        o2: done[1],
                        o3: done[2],
                        o4: done[3],
                        port: port as u16,
                    };
                    proof {
                        assert(done_spec(done@)[0] == done@[0] as int);
                        assert(done_spec(done@)[1] == done@[1] as int);
                        assert(done_spec(done@)[2] == done@[2] as int);
                        assert(done_spec(done@)[3] == done@[3] as int);
                    }
                    Some(r)
                },
                None => None,
            }
        } else {
            None
        }
    } else {
        let c = s.get_char(i);
        proof {
            assert(rest[0] == s@[i as int]);
            assert(rest.drop_first() =~= s@.skip(i as int + 1));
        }
        let done_len = done.len();
        if c == '.' && done_len < 3 && acc.is_some() {
            let ghost dv = done@;
            let v = acc.unwrap();
            let mut done2 = done;
            done2.push(v as u8);
            proof {
                assert(done_spec(done2@) =~= done_spec(dv).push(v as int));
            }
            scan_addr_exec(s, i + 1, None, done2)
        } else if c == ':' && done_len == 3 && acc.is_some() {
            let ghost dv = done@;
            let v = acc.unwrap();
            let mut done2 = done;
            done2.push(v as u8);
            proof {
                assert(done_spec(done2@) =~= done_spec(dv).push(v as int));
            }
            scan_addr_exec(s, i + 1, None, done2)
        } else {
            match digit_val_exec(c) {
                Some(d) => {
                    match acc {
                        None => {
                            let zero_led = d == 0 && i + 1 < n && {
                                match digit_val_exec(s.get_char(i + 1)) {
                                    Some(_) => true,
                                    None => false,
                                }
                            };
                            proof {
                                if i + 1 < n {
                                    assert(rest[1] == s@[i as int + 1]);
                                }
                            }
                            if zero_led {
                                None
                            } else {
                                scan_addr_exec(s, i + 1, Some(d), done)
                            }
                        },
                        Some(v) => {
                            let bound: u32 = if done_len == 4 {
                                65535
                            } else {
                                255
                            };
                            let w = v * 10 + d;
                            if w > bound {
                                None
                            } else {
                                scan_addr_exec(s, i + 1, Some(w), done)
                            }
                        },
                    }
                },
                None => None,
            }
        }
    }
}

/// Parses a bind-address override; the result is exactly what the grammar
/// `parse_addr` denotes.
pub fn parse_bind_addr(s: &str) -> (r: Option<BindAddr>)
    ensures
        r == parse_addr(s@),
{
    let r = scan_addr_exec(s, 0, None, Vec::new());
    proof {
        assert(s@.skip(0) =~= s@);
        assert(done_spec(Seq::<u8>::empty()) =~= Seq::<int>::empty());
    }
    r
}

/// Loads the configuration from an optional bind-address override, as the
/// environment reader outside the library hands it in. An absent value
/// falls back to the documented default; a present but malformed one is
/// rejected as invalid, exactly when the grammar rejects it.
pub fn load(bind_override: Option<&str>) -> (r: Result<ServiceConfig, ConfigError>)
    ensures
        match r {
            Ok(c) => {
                &&& c.cors_permissive == default_config().cors_permissive
                &&& c.compression_enabled == default_config().compression_enabled
                &&& c.compression_threshold == default_config().compression_threshold
                &&& c.log_level == default_config().log_level
                &&& match bind_override {
                    None => c.bind == default_config().bind,
                    Some(s) => parse_addr(s@) == Some(c.bind),
                }
            },
            Err(e) => {
                &&& e == ConfigError::Invalid
                &&& bind_override matches Some(s) && parse_addr(s@) is None
            },
        },
{
    let mut cfg = ServiceConfig {
        bind: BindAddr { o1: 127, o2: 0, o3: 0, o4: 1, port: 3000 },
        cors_permissive: true,
        compression_enabled: true,
        compression_threshold: 32,
        log_level: LogLevel::Info,
    };
    match bind_override {
        None => Ok(cfg),
        Some(s) => {
            match parse_bind_addr(s) {
                Some(addr) => {
                    cfg.bind = addr;
                    Ok(cfg)
                },
                None => Err(ConfigError::Invalid),
            }
        },
    }
}

} // verus!
