//! The request/response model: methods, headers (case-insensitive names,
//! multiple values per name kept in order), bodies, and the per-request
//! context bag that middleware uses to hand derived state downstream.

use vstd::prelude::*;
use crate::text::{eq_ignore_case, str_eq_ignore_case};

verus! {

/// An HTTP method.
#[derive(Clone, Copy, PartialEq, Eq, Structural, Debug)]
pub enum Method {
    Get,
    Post,
    Put,
    Delete,
    Patch,
    Head,
    Options,
}

/// One header: a name (case-insensitive) and a value.
pub struct Header {
    pub name: String,
    pub value: String,
}

/// Mathematical view of a header: the two character sequences.
pub struct HeaderV {
    pub name: Seq<char>,
    pub value: Seq<char>,
}

impl View for Header {
    type V = HeaderV;

    open spec fn view(&self) -> HeaderV {
        HeaderV { name: self.name@, value: self.value@ }
    }
}

/// An inbound request. The context bag carries state derived by middleware
/// (an authenticated identity, once an auth layer exists) to inner layers
/// and the handler.
pub struct Request {
    pub method: Method,
    pub path: String,
    pub headers: Vec<Header>,
    pub body: Option<String>,
    pub context: Vec<Header>,
}

/// Mathematical view of a request.
pub struct RequestV {
    pub method: Method,
    pub path: Seq<char>,
    pub headers: Seq<HeaderV>,
    pub body: Option<Seq<char>>,
    pub context: Seq<HeaderV>,
}

impl View for Request {
    type V = RequestV;

    open spec fn view(&self) -> RequestV {
        RequestV {
            method: self.method,
            path: self.path@,
            headers: self.headers@.map_values(|h: Header| h@),
            body: match self.body {
                Some(b) => Some(b@),
                None => None,
            },
            context: self.context@.map_values(|h: Header| h@),
        }
    }
}

/// A response. Produced exactly once per request, by a handler or by a
/// middleware layer short-circuiting the chain.
pub struct Response {
    pub status: u16,
    pub headers: Vec<Header>,
    pub body: String,
}

/// Mathematical view of a response.
pub struct ResponseV {
    pub status: u16,
    pub headers: Seq<HeaderV>,
    pub body: Seq<char>,
}

impl View for Response {
    type V = ResponseV;

    open spec fn view(&self) -> ResponseV {
        ResponseV {
            status: self.status,
            headers: self.headers@.map_values(|h: Header| h@),
            body: self.body@,
        }
    }
}

/// The value of the first header whose name equals `name` up to ASCII case,
/// if any; later values for the same name are preserved in `hs` but a single
/// lookup returns the first.
pub open spec fn find_header(hs: Seq<HeaderV>, name: Seq<char>) -> Option<Seq<char>>
    decreases hs.len(),
{
    if hs.len() == 0 {
        None
    } else if eq_ignore_case(hs[0].name, name) {
        Some(hs[0].value)
    } else {
        find_header(hs.drop_first(), name)
    }
}

/// Whether some header has this name (up to ASCII case).
pub open spec fn has_header(hs: Seq<HeaderV>, name: Seq<char>) -> bool {
    find_header(hs, name) is Some
}

proof fn lemma_find_header_step(hs: Seq<HeaderV>, name: Seq<char>, i: int)
    requires
        0 <= i < hs.len(),
        forall|j: int| 0 <= j < i ==> !eq_ignore_case(hs[j].name, name),
    ensures
        find_header(hs, name) == if eq_ignore_case(hs[i].name, name) {
            Some(hs[i].value)
        } else {
            find_header(hs.skip(i + 1), name)
        },
    decreases i,
{
    if i == 0 {
        assert(hs.drop_first() =~= hs.skip(1));
    } else {
        lemma_find_header_step(hs.drop_first(), name, i - 1);
        assert(hs.drop_first()[i - 1] == hs[i]);
        assert(hs.drop_first().skip(i) =~= hs.skip(i + 1));
    }
}

/// Looks up the first header with the given name, ignoring ASCII case.
pub fn lookup_header<'a>(hs: &'a Vec<Header>, name: &str) -> (r: Option<&'a String>)
    ensures
        match r {
            Some(v) => find_header(hs@.map_values(|h: Header| h@), name@) == Some(v@),
            None => find_header(hs@.map_values(|h: Header| h@), name@) is None,
        },
{
    let ghost hsv = hs@.map_values(|h: Header| h@);
    let mut i: usize = 0;
    while i < hs.len()
        invariant
            hsv == hs@.map_values(|h: Header| h@),
            i <= hs.len(),
            forall|j: int| 0 <= j < i ==> !eq_ignore_case(hsv[j].name, name@),
        decreases hs.len() - i,
    {
        if str_eq_ignore_case(hs[i].name.as_str(), name) {
            proof {
                lemma_find_header_step(hsv, name@, i as int);
            }
            return Some(&hs[i].value);
        }
        i = i + 1;
    }
    proof {
        if hsv.len() > 0 {
            lemma_find_header_step(hsv, name@, hsv.len() - 1);
            assert(hsv.skip(hsv.len() as int) =~= Seq::<HeaderV>::empty());
        }
    }
    None
}

} // verus!
