//! Bearer-token authentication: the token request, the token answer, and the
//! "challenge once, retry once" exchange around a registry request.
use vstd::prelude::*;

use crate::bytes::{append_bytes, opt_view};
use crate::challenge::{parse_challenge, parse_challenge_spec, Challenge, ChallengeModel};
use crate::client::{Client, ClientModel};
use crate::error::Error;
use crate::http::{copy_bytes, copy_opt, is_success, Method, Request, RequestModel, Response};
use crate::json::{json_string_member, string_member};

verus! {

/// `token`
pub open spec fn token_key() -> Seq<u8> {
    seq![116u8, 111u8, 107u8, 101u8, 110u8]
}

/// `access_token`
pub open spec fn access_token_key() -> Seq<u8> {
    seq![97u8, 99u8, 99u8, 101u8, 115u8, 115u8, 95u8, 116u8, 111u8, 107u8, 101u8, 110u8]
}

/// `WWW-Authenticate`
pub open spec fn www_authenticate() -> Seq<u8> {
    seq![
        87u8, 87u8, 87u8, 45u8, 65u8, 117u8, 116u8, 104u8, 101u8, 110u8, 116u8, 105u8, 99u8,
        97u8, 116u8, 101u8,
    ]
}

pub open spec fn unreserved(b: u8) -> bool {
    (65 <= b <= 90) || (97 <= b <= 122) || (48 <= b <= 57) || b == 45 || b == 46 || b == 95
        || b == 126
}

pub open spec fn hex_digit(n: u8) -> u8 {
    if n < 10 {
        (48 + n) as u8
    } else {
        (55 + n) as u8
    }
}

/// One byte of a query value: itself when unreserved, else `%XX`.
pub open spec fn pct_byte(b: u8) -> Seq<u8> {
    if unreserved(b) {
        seq![b]
    } else {
        seq![37u8, hex_digit(b / 16), hex_digit(b % 16)]
    }
}

/// A query value, percent-encoded.
pub open spec fn pct(v: Seq<u8>) -> Seq<u8>
    decreases v.len(),
{
    if v.len() == 0 {
        Seq::empty()
    } else {
        pct(v.drop_last()) + pct_byte(v.last())
    }
}

/// `?service=`
pub open spec fn service_query() -> Seq<u8> {
    seq![63u8, 115u8, 101u8, 114u8, 118u8, 105u8, 99u8, 101u8, 61u8]
}

/// `&scope=`
pub open spec fn scope_query() -> Seq<u8> {
    seq![38u8, 115u8, 99u8, 111u8, 112u8, 101u8, 61u8]
}

/// The token request for a challenge: `GET <realm>?service=..[&scope=..]`, with the
/// session's credentials as Basic authentication on this request alone.
pub open spec fn token_request_spec(c: ChallengeModel, client: ClientModel) -> RequestModel {
    RequestModel {
        method: Method::Get,
        url: c.realm + service_query() + pct(c.service) + match c.scope {
            Some(sc) => scope_query() + pct(sc),
            None => Seq::empty(),
        },
        host: None,
        bearer: None,
        basic: client.credentials,
        user_agent: client.user_agent,
    }
}

pub open spec fn token_result_view(r: Result<Vec<u8>, Error>) -> Result<Seq<u8>, Error> {
    match r {
        Ok(t) => Ok(t@),
        Err(e) => Err(e),
    }
}

/// The token that an answer of the token service with this status carries under
/// `token` or, failing that, `access_token`.
pub open spec fn select_token_spec(
    status: u16,
    token: Option<Seq<u8>>,
    access_token: Option<Seq<u8>>,
) -> Result<Seq<u8>, Error> {
    if !is_success(status) {
        Err(Error::AuthenticationDenied(status))
    } else {
        match (token, access_token) {
            (Some(t), _) => Ok(t),
            (None, Some(t)) => Ok(t),
            (None, None) => Err(Error::ProtocolViolation),
        }
    }
}

pub open spec fn token_outcome(status: u16, body: Seq<u8>) -> Result<Seq<u8>, Error> {
    select_token_spec(
        status,
        json_string_member(body, token_key()),
        json_string_member(body, access_token_key()),
    )
}

fn push_pct(out: &mut Vec<u8>, v: &[u8])
    ensures
        final(out)@ == old(out)@ + pct(v@),
{
    let mut n: usize = 0;
    while n < v.len()
        invariant
            0 <= n <= v@.len(),
            out@ == old(out)@ + pct(v@.subrange(0, n as int)),
        decreases v@.len() - n,
    {
        let b = v[n];
        assert(v@.subrange(0, n + 1).drop_last() =~= v@.subrange(0, n as int));
        if (65 <= b && b <= 90) || (97 <= b && b <= 122) || (48 <= b && b <= 57) || b == 45 || b
            == 46 || b == 95 || b == 126 {
            out.push(b);
        } else {
            let hi = b / 16;
            let lo = b % 16;
            out.push(37u8);
            out.push(if hi < 10 { 48 + hi } else { 55 + hi });
            out.push(if lo < 10 { 48 + lo } else { 55 + lo });
        }
        n += 1;
        assert(out@ =~= old(out)@ + pct(v@.subrange(0, n as int)));
    }
    assert(v@.subrange(0, v@.len() as int) =~= v@);
}

/// Picks the token out of the two members read from a token answer.
pub fn select_token(status: u16, token: Option<Vec<u8>>, access_token: Option<Vec<u8>>) -> (r:
    Result<Vec<u8>, Error>)
    ensures
        token_result_view(r) == select_token_spec(status, opt_view(token), opt_view(access_token)),
{
    if !(200 <= status && status <= 299) {
        return Err(Error::AuthenticationDenied(status));
    }
    match (token, access_token) {
        (Some(t), _) => Ok(t),
        (None, Some(t)) => Ok(t),
        (None, None) => Err(Error::ProtocolViolation),
    }
}

/// The bearer token carried by an answer of the token service.
pub fn token_from_response(resp: &Response) -> (r: Result<Vec<u8>, Error>)
    ensures
        token_result_view(r) == token_outcome(resp.status, resp.body@),
{
    if !(200 <= resp.status && resp.status <= 299) {
        return Err(Error::AuthenticationDenied(resp.status));
    }
    let k1: Vec<u8> = vec![116u8, 111u8, 107u8, 101u8, 110u8];
    assert(k1@ =~= token_key());
    let k2: Vec<u8> = vec![
        97u8, 99u8, 99u8, 101u8, 115u8, 115u8, 95u8, 116u8, 111u8, 107u8, 101u8, 110u8,
    ];
    assert(k2@ =~= access_token_key());
    let t = string_member(resp.body.as_slice(), k1.as_slice());
    let a = string_member(resp.body.as_slice(), k2.as_slice());
    select_token(resp.status, t, a)
}

impl Client {
    /// The request that asks the token service of `c` for a token.
    pub fn token_request(&self, c: &Challenge) -> (r: Request)
        ensures
            r@ == token_request_spec(c@, self@),
    {
        let mut url: Vec<u8> = Vec::new();
        append_bytes(&mut url, c.realm.as_slice());
        let q: Vec<u8> = vec![63u8, 115u8, 101u8, 114u8, 118u8, 105u8, 99u8, 101u8, 61u8];
        assert(q@ =~= service_query());
        append_bytes(&mut url, q.as_slice());
        push_pct(&mut url, c.service.as_slice());
        match &c.scope {
            Some(sc) => {
                let q2: Vec<u8> = vec![38u8, 115u8, 99u8, 111u8, 112u8, 101u8, 61u8];
                assert(q2@ =~= scope_query());
                append_bytes(&mut url, q2.as_slice());
                push_pct(&mut url, sc.as_slice());
            },
            None => {},
        }
        assert(url@ =~= token_request_spec(c@, self@).url);
        let basic = match &self.credentials {
            Some((u, p)) => Some((copy_bytes(u.as_slice()), copy_bytes(p.as_slice()))),
            None => None,
        };
        Request {
            method: Method::Get,
            url,
            host: None,
            bearer: None,
            basic,
            user_agent: copy_opt(&self.user_agent),
        }
    }
}

/// Where an exchange stands.
#[derive(Clone, Copy, Debug, PartialEq, Eq, Structural)]
pub enum Phase {
    /// The registry request went out without a fresh token.
    Sent,
    /// The registry asked for a token; the token request went out.
    Authenticating,
    /// The registry request went out again, with the new token.
    Retried,
    /// The exchange has its answer.
    Finished,
}

/// What the caller of an exchange does next.
pub enum Action {
    /// Perform this request and hand its response back to the exchange.
    Send(Request),
    /// The exchange is over; this is the registry's answer.
    Return(Response),
    /// The exchange is over and failed.
    Fail(Error),
}

/// One registry request with its authentication: it goes out, and on a `401`
/// that carries a usable challenge a token is fetched and the request goes out
/// once more. Never more than two registry requests.
pub struct Exchange {
    pub method: Method,
    pub url: Vec<u8>,
    pub phase: Phase,
    /// How many times the registry request went out.
    pub attempts: u8,
}

/// The challenge of a `401` answer, when its `WWW-Authenticate` header parses.
pub open spec fn challenge_of(resp: Response) -> Option<ChallengeModel> {
    match resp.header_spec(www_authenticate()) {
        Some(h) => match parse_challenge_spec(h) {
            Ok(c) => Some(c),
            Err(_) => None,
        },
        None => None,
    }
}

impl Exchange {
    pub open spec fn wf(&self) -> bool {
        &&& (self.phase == Phase::Sent || self.phase == Phase::Authenticating) ==> self.attempts
            == 1
        &&& self.phase == Phase::Retried ==> self.attempts == 2
        &&& self.phase == Phase::Finished ==> 1 <= self.attempts <= 2
    }

    /// The next step after `resp` came back for the request last sent.
    pub fn on_response(&mut self, client: &mut Client, resp: Response) -> (r: Action)
        requires
            old(self).wf(),
            old(self).phase != Phase::Finished,
        ensures
            final(self).wf(),
            final(self).method == old(self).method,
            final(self).url == old(self).url,
            final(self).attempts <= 2,
            match old(self).phase {
                Phase::Sent => if resp.status == 401 && challenge_of(resp) is Some {
                    &&& r matches Action::Send(q) && q@ == token_request_spec(
                        challenge_of(resp)->0,
                        old(client)@,
                    )
                    &&& final(self).phase == Phase::Authenticating
                    &&& final(client)@ == (ClientModel { token: None, ..old(client)@ })
                } else {
                    &&& r == Action::Return(resp)
                    &&& final(self).phase == Phase::Finished
                    &&& final(self).attempts == 1
                    &&& final(client)@ == old(client)@
                },
                Phase::Authenticating => match token_outcome(resp.status, resp.body@) {
                    Ok(t) => {
                        &&& final(client)@ == (ClientModel { token: Some(t), ..old(client)@ })
                        &&& r matches Action::Send(q) && q@ == final(client).request_spec(
                            old(self).method,
                            old(self).url@,
                        )
                        &&& final(self).phase == Phase::Retried
                        &&& final(self).attempts == 2
                    },
                    Err(e) => {
                        &&& r == Action::Fail(e)
                        &&& final(self).phase == Phase::Finished
                        &&& final(client)@ == old(client)@
                    },
                },
                _ => {
                    &&& r == Action::Return(resp)
                    &&& final(self).phase == Phase::Finished
                    &&& final(self).attempts == 2
                    &&& final(client)@ == old(client)@
                },
            },
    {
        match self.phase {
            Phase::Sent => {
                if resp.status == 401 {
                    let name: Vec<u8> = vec![
                        87u8, 87u8, 87u8, 45u8, 65u8, 117u8, 116u8, 104u8, 101u8, 110u8, 116u8,
                        105u8, 99u8, 97u8, 116u8, 101u8,
                    ];
                    assert(name@ =~= www_authenticate());
                    if let Some(h) = resp.header(name.as_slice()) {
                        if let Ok(c) = parse_challenge(h.as_slice()) {
                            client.token = None;
                            self.phase = Phase::Authenticating;
                            return Action::Send(client.token_request(&c));
                        }
                    }
                }
                self.phase = Phase::Finished;
                Action::Return(resp)
            },
            Phase::Authenticating => {
                match token_from_response(&resp) {
                    Ok(t) => {
                        client.token = Some(t);
                        self.phase = Phase::Retried;
                        self.attempts = 2;
                        let url = copy_bytes(self.url.as_slice());
                        Action::Send(client.new_request(self.method, url))
                    },
                    Err(e) => {
                        self.phase = Phase::Finished;
                        Action::Fail(e)
                    },
                }
            },
            _ => {
                self.phase = Phase::Finished;
                Action::Return(resp)
            },
        }
    }
}

impl Client {
    /// Starts an authenticated exchange for `url`, and gives the first request to
    /// send.
    pub fn execute_url(&self, method: Method, url: Vec<u8>) -> (r: (Exchange, Request))
        ensures
            r.0.wf(),
            r.0.method == method,
            r.0.url@ == url@,
            r.0.phase == Phase::Sent,
            r.0.attempts == 1,
            r.1@ == self.request_spec(method, url@),
    {
        let req = self.new_request(method, copy_bytes(url.as_slice()));
        (Exchange { method, url, phase: Phase::Sent, attempts: 1 }, req)
    }

    /// Starts an authenticated exchange for `path` under the base URL.
    pub fn execute(&self, method: Method, path: &[u8]) -> (r: (Exchange, Request))
        ensures
            r.0.wf(),
            r.0.method == method,
            r.0.url@ == self@.base_url + path@,
            r.0.phase == Phase::Sent,
            r.0.attempts == 1,
            r.1@ == self.request_spec(method, self@.base_url + path@),
    {
        self.execute_url(method, self.url_for(path))
    }
}

} // verus!
