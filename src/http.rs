//! The plain values exchanged with the transport: requests to make and the
//! responses that came back.
use vstd::prelude::*;

use crate::bytes::{append_bytes, bytes_eq_ignore_case, eq_ignore_case, opt_view};

verus! {

#[derive(Clone, Copy, Debug, PartialEq, Eq, Structural)]
pub enum Method {
    Get,
    Head,
}

/// A request for the transport to perform.
pub struct Request {
    pub method: Method,
    pub url: Vec<u8>,
    /// Value of the `Host` header, when one is to be set.
    pub host: Option<Vec<u8>>,
    /// Token for an `Authorization: Bearer` header.
    pub bearer: Option<Vec<u8>>,
    /// User name and password for an `Authorization: Basic` header.
    pub basic: Option<(Vec<u8>, Vec<u8>)>,
    pub user_agent: Option<Vec<u8>>,
}

pub struct RequestModel {
    pub method: Method,
    pub url: Seq<u8>,
    pub host: Option<Seq<u8>>,
    pub bearer: Option<Seq<u8>>,
    pub basic: Option<(Seq<u8>, Seq<u8>)>,
    pub user_agent: Option<Seq<u8>>,
}

pub open spec fn pair_view(p: Option<(Vec<u8>, Vec<u8>)>) -> Option<(Seq<u8>, Seq<u8>)> {
    match p {
        Some((a, b)) => Some((a@, b@)),
        None => None,
    }
}

impl View for Request {
    type V = RequestModel;

    open spec fn view(&self) -> RequestModel {
        RequestModel {
            method: self.method,
            url: self.url@,
            host: opt_view(self.host),
            bearer: opt_view(self.bearer),
            basic: pair_view(self.basic),
            user_agent: opt_view(self.user_agent),
        }
    }
}

/// What the transport got back: status, headers in order, and the body.
pub struct Response {
    pub status: u16,
    pub headers: Vec<(Vec<u8>, Vec<u8>)>,
    pub body: Vec<u8>,
}

/// The value of the first header at or after index `i` whose name is `name`,
/// ignoring ASCII case.
pub open spec fn header_from(hs: Seq<(Vec<u8>, Vec<u8>)>, name: Seq<u8>, i: int) -> Option<
    Seq<u8>,
>
    decreases hs.len() - i,
{
    if i < 0 || i >= hs.len() {
        None
    } else if eq_ignore_case(hs[i].0@, name) {
        Some(hs[i].1@)
    } else {
        header_from(hs, name, i + 1)
    }
}

pub open spec fn is_success(status: u16) -> bool {
    200 <= status <= 299
}

pub fn copy_bytes(v: &[u8]) -> (r: Vec<u8>)
    ensures
        r@ == v@,
{
    let mut r: Vec<u8> = Vec::new();
    append_bytes(&mut r, v);
    assert(r@ =~= v@);
    r
}

pub fn copy_opt(v: &Option<Vec<u8>>) -> (r: Option<Vec<u8>>)
    ensures
        opt_view(r) == opt_view(*v),
{
    match v {
        Some(x) => Some(copy_bytes(x.as_slice())),
        None => None,
    }
}

impl Response {
    pub open spec fn header_spec(&self, name: Seq<u8>) -> Option<Seq<u8>> {
        header_from(self.headers@, name, 0)
    }

    /// The value of the first header called `name` (any case).
    pub fn header(&self, name: &[u8]) -> (r: Option<Vec<u8>>)
        ensures
            opt_view(r) == self.header_spec(name@),
    {
        let mut i: usize = 0;
        while i < self.headers.len()
            invariant
                0 <= i <= self.headers@.len(),
                header_from(self.headers@, name@, i as int) == header_from(
                    self.headers@,
                    name@,
                    0,
                ),
            decreases self.headers@.len() - i,
        {
            let h = &self.headers[i];
            if bytes_eq_ignore_case(h.0.as_slice(), name) {
                return Some(copy_bytes(h.1.as_slice()));
            }
            i += 1;
        }
        None
    }
}

} // verus!
