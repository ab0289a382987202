use vstd::prelude::*;
use vstd::utf8::{decode_utf8, encode_utf8, valid_utf8};

use crate::router::{pairs_view, Matched};

verus! {

/// The request value handed to a handler.
pub struct Req {
    pub method: String,
    pub url: String,
    pub query: Vec<(String, String)>,
    pub params: Vec<(String, String)>,
    pub headers: Vec<(String, String)>,
    pub body: Option<String>,
}

/// The response value a handler produces.
pub struct Res {
    pub status: u16,
    pub headers: Vec<(String, String)>,
    pub body: Option<String>,
}

pub open spec fn opt_view(o: Option<String>) -> Option<Seq<char>> {
    match o {
        Some(s) => Some(s@),
        None => None,
    }
}

impl Req {
    /// A request with no query, parameters, headers or body.
    pub fn new(method: &str, url: &str) -> (r: Req)
        ensures
            r.method@ == method@,
            r.url@ == url@,
            r.query@.len() == 0,
            r.params@.len() == 0,
            r.headers@.len() == 0,
            r.body is None,
    {
        Req {
            method: method.to_owned(),
            url: url.to_owned(),
            query: Vec::new(),
            params: Vec::new(),
            headers: Vec::new(),
            body: None,
        }
    }
}

impl Res {
    pub fn new(status: u16, headers: Vec<(String, String)>, body: Option<String>) -> (r: Res)
        ensures
            r.status == status,
            r.headers == headers,
            r.body == body,
    {
        Res { status, headers, body }
    }

    /// The body to send on the wire: a missing body is an empty one.
    pub fn body_or_empty(&self) -> (r: String)
        ensures
            r@ == match self.body {
                Some(b) => b@,
                None => Seq::empty(),
            },
    {
        match &self.body {
            Some(b) => b.clone(),
            None => String::new(),
        }
    }
}

/// Relies on `String::from_utf8`: it succeeds exactly on valid UTF-8, with the
/// characters the bytes encode.
#[verifier::external_body]
fn utf8_string(bytes: Vec<u8>) -> (r: Option<String>)
    ensures
        match r {
            Some(s) => valid_utf8(bytes@) && s@ == decode_utf8(bytes@),
            None => !valid_utf8(bytes@),
        },
{
    String::from_utf8(bytes).ok()
}

/// The body as text: present only when the bytes are valid UTF-8.
pub open spec fn body_text(body: Option<Seq<u8>>) -> Option<Seq<char>> {
    match body {
        Some(b) => if valid_utf8(b) {
            Some(decode_utf8(b))
        } else {
            None
        },
        None => None,
    }
}

pub open spec fn bytes_opt_view(o: Option<Vec<u8>>) -> Option<Seq<u8>> {
    match o {
        Some(b) => Some(b@),
        None => None,
    }
}

/// Assembles the request value for a matched route. A body that is not valid
/// UTF-8 is dropped; a kept body re-encodes to exactly the bytes received.
pub fn assemble_req(
    matched: &Matched,
    method: &str,
    url: &str,
    query: Vec<(String, String)>,
    headers: Vec<(String, String)>,
    body: Option<Vec<u8>>,
) -> (r: Req)
    ensures
        r.method@ == method@,
        r.url@ == url@,
        r.query == query,
        pairs_view(r.params@) == pairs_view(matched.params@),
        r.headers == headers,
        opt_view(r.body) == body_text(bytes_opt_view(body)),
        match (body, r.body) {
            (Some(b), Some(s)) => encode_utf8(s@) == b@,
            _ => true,
        },
{
    let mut params: Vec<(String, String)> = Vec::new();
    let mut i: usize = 0;
    while i < matched.params.len()
        invariant
            i <= matched.params@.len(),
            pairs_view(params@) == pairs_view(matched.params@).take(i as int),
        decreases matched.params.len() - i,
    {
        let ghost before = params@;
        let (k, v) = &matched.params[i];
        params.push((k.clone(), v.clone()));
        assert(pairs_view(params@) =~= pairs_view(before).push((k@, v@)));
        assert(pairs_view(matched.params@).take(i + 1) =~= pairs_view(matched.params@).take(
            i as int,
        ).push((k@, v@)));
        i = i + 1;
    }
    assert(pairs_view(matched.params@).take(i as int) =~= pairs_view(matched.params@));
    let ghost body_in = body;
    let text = match body {
        Some(b) => utf8_string(b),
        None => None,
    };
    proof {
        if body_in is Some && valid_utf8(body_in->0@) {
            vstd::utf8::decode_utf8_encode_utf8(body_in->0@);
        }
    }
    Req { method: method.to_owned(), url: url.to_owned(), query, params, headers, body: text }
}

} // verus!
