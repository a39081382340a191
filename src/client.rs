//! The client session and the requests it makes.
use vstd::prelude::*;

use crate::bytes::{append_bytes, bytes_eq, opt_view};
use crate::http::{copy_bytes, copy_opt, pair_view, Method, Request, RequestModel, Response};

verus! {

/// A session with one registry. The cached bearer token is its only state that
/// changes, and only the authentication exchange changes it.
pub struct Client {
    pub base_url: Vec<u8>,
    pub index: Vec<u8>,
    pub credentials: Option<(Vec<u8>, Vec<u8>)>,
    pub user_agent: Option<Vec<u8>>,
    pub token: Option<Vec<u8>>,
}

pub struct ClientModel {
    pub base_url: Seq<u8>,
    pub index: Seq<u8>,
    pub credentials: Option<(Seq<u8>, Seq<u8>)>,
    pub user_agent: Option<Seq<u8>>,
    pub token: Option<Seq<u8>>,
}

impl View for Client {
    type V = ClientModel;

    open spec fn view(&self) -> ClientModel {
        ClientModel {
            base_url: self.base_url@,
            index: self.index@,
            credentials: pair_view(self.credentials),
            user_agent: opt_view(self.user_agent),
            token: opt_view(self.token),
        }
    }
}

/// Settings from which a `Client` is built.
pub struct Config {
    pub index: Vec<u8>,
    pub insecure_registry: bool,
    pub username: Option<Vec<u8>>,
    pub password: Option<Vec<u8>>,
    pub user_agent: Option<Vec<u8>>,
}

/// `registry-1.docker.io`
pub open spec fn default_index() -> Seq<u8> {
    seq![
        114u8, 101u8, 103u8, 105u8, 115u8, 116u8, 114u8, 121u8, 45u8, 49u8, 46u8, 100u8, 111u8,
        99u8, 107u8, 101u8, 114u8, 46u8, 105u8, 111u8,
    ]
}

/// `https://`
pub open spec fn https_prefix() -> Seq<u8> {
    seq![104u8, 116u8, 116u8, 112u8, 115u8, 58u8, 47u8, 47u8]
}

/// `http://`
pub open spec fn http_prefix() -> Seq<u8> {
    seq![104u8, 116u8, 116u8, 112u8, 58u8, 47u8, 47u8]
}

/// `/v2/`
pub open spec fn v2_root() -> Seq<u8> {
    seq![47u8, 118u8, 50u8, 47u8]
}

/// `Docker-Distribution-API-Version`
pub open spec fn api_version_header() -> Seq<u8> {
    seq![
        68u8, 111u8, 99u8, 107u8, 101u8, 114u8, 45u8, 68u8, 105u8, 115u8, 116u8, 114u8, 105u8,
        98u8, 117u8, 116u8, 105u8, 111u8, 110u8, 45u8, 65u8, 80u8, 73u8, 45u8, 86u8, 101u8,
        114u8, 115u8, 105u8, 111u8, 110u8,
    ]
}

/// `registry/2.0`
pub open spec fn api_version_value() -> Seq<u8> {
    seq![114u8, 101u8, 103u8, 105u8, 115u8, 116u8, 114u8, 121u8, 47u8, 50u8, 46u8, 48u8]
}

impl Config {
    pub open spec fn base_url_spec(&self) -> Seq<u8> {
        (if self.insecure_registry {
            http_prefix()
        } else {
            https_prefix()
        }) + self.index@
    }

    /// Settings for the public Docker registry over TLS, without credentials.
    pub fn new() -> (r: Config)
        ensures
            r.index@ == default_index(),
            !r.insecure_registry,
            r.username is None,
            r.password is None,
            r.user_agent is None,
    {
        let index: Vec<u8> = vec![
            114u8, 101u8, 103u8, 105u8, 115u8, 116u8, 114u8, 121u8, 45u8, 49u8, 46u8, 100u8,
            111u8, 99u8, 107u8, 101u8, 114u8, 46u8, 105u8, 111u8,
        ];
        assert(index@ =~= default_index());
        Config { index, insecure_registry: false, username: None, password: None, user_agent: None }
    }

    pub fn registry(self, index: Vec<u8>) -> (r: Config)
        ensures
            r == (Config { index, ..self }),
    {
        Config { index, ..self }
    }

    pub fn insecure_registry(self, insecure: bool) -> (r: Config)
        ensures
            r == (Config { insecure_registry: insecure, ..self }),
    {
        Config { insecure_registry: insecure, ..self }
    }

    pub fn username(self, username: Option<Vec<u8>>) -> (r: Config)
        ensures
            r == (Config { username, ..self }),
    {
        Config { username, ..self }
    }

    pub fn password(self, password: Option<Vec<u8>>) -> (r: Config)
        ensures
            r == (Config { password, ..self }),
    {
        Config { password, ..self }
    }

    pub fn user_agent(self, user_agent: Option<Vec<u8>>) -> (r: Config)
        ensures
            r == (Config { user_agent, ..self }),
    {
        Config { user_agent, ..self }
    }

    /// A session without a token. Credentials are kept only when both the user
    /// name and the password are given.
    pub fn build(self) -> (r: Client)
        ensures
            r@.base_url == self.base_url_spec(),
            r@.index == self.index@,
            r@.credentials == (match (self.username, self.password) {
                (Some(u), Some(p)) => Some((u@, p@)),
                _ => None,
            }),
            r@.user_agent == opt_view(self.user_agent),
            r@.token is None,
    {
        let mut base_url: Vec<u8> = if self.insecure_registry {
            vec![104u8, 116u8, 116u8, 112u8, 58u8, 47u8, 47u8]
        } else {
            vec![104u8, 116u8, 116u8, 112u8, 115u8, 58u8, 47u8, 47u8]
        };
        append_bytes(&mut base_url, self.index.as_slice());
        assert(base_url@ =~= self.base_url_spec());
        let credentials = match (self.username, self.password) {
            (Some(u), Some(p)) => Some((u, p)),
            _ => None,
        };
        Client {
            base_url,
            index: self.index,
            credentials,
            user_agent: self.user_agent,
            token: None,
        }
    }
}

impl Client {
    /// Settings to build a client from.
    pub fn configure() -> (r: Config)
        ensures
            r.index@ == default_index(),
            !r.insecure_registry,
            r.username is None,
            r.password is None,
            r.user_agent is None,
    {
        Config::new()
    }

    /// The request this session makes for `url`: the index as host, the cached
    /// token if there is one, and the configured user agent.
    pub open spec fn request_spec(&self, method: Method, url: Seq<u8>) -> RequestModel {
        RequestModel {
            method,
            url,
            host: Some(self.index@),
            bearer: opt_view(self.token),
            basic: None,
            user_agent: opt_view(self.user_agent),
        }
    }

    pub fn new_request(&self, method: Method, url: Vec<u8>) -> (r: Request)
        ensures
            r@ == self.request_spec(method, url@),
    {
        Request {
            method,
            url,
            host: Some(copy_bytes(self.index.as_slice())),
            bearer: copy_opt(&self.token),
            basic: None,
            user_agent: copy_opt(&self.user_agent),
        }
    }

    /// The base URL followed by `path`.
    pub fn url_for(&self, path: &[u8]) -> (r: Vec<u8>)
        ensures
            r@ == self.base_url@ + path@,
    {
        let mut u = copy_bytes(self.base_url.as_slice());
        append_bytes(&mut u, path);
        u
    }

    /// The probe for API support: `GET <base>/v2/`.
    pub fn v2_probe_request(&self) -> (r: Request)
        ensures
            r@ == self.request_spec(Method::Get, self.base_url@ + v2_root()),
    {
        let root: Vec<u8> = vec![47u8, 118u8, 50u8, 47u8];
        assert(root@ =~= v2_root());
        self.new_request(Method::Get, self.url_for(root.as_slice()))
    }

    pub open spec fn is_v2_supported_spec(resp: Response) -> bool {
        (resp.status == 200 || resp.status == 401) && resp.header_spec(api_version_header())
            == Some(api_version_value())
    }

    /// Whether the answer to the probe shows the v2 API: a 200 or 401 status
    /// carrying `Docker-Distribution-API-Version: registry/2.0`.
    pub fn is_v2_supported(resp: &Response) -> (r: bool)
        ensures
            r == Self::is_v2_supported_spec(*resp),
    {
        if resp.status != 200 && resp.status != 401 {
            return false;
        }
        let name: Vec<u8> = vec![
            68u8, 111u8, 99u8, 107u8, 101u8, 114u8, 45u8, 68u8, 105u8, 115u8, 116u8, 114u8,
            105u8, 98u8, 117u8, 116u8, 105u8, 111u8, 110u8, 45u8, 65u8, 80u8, 73u8, 45u8, 86u8,
            101u8, 114u8, 115u8, 105u8, 111u8, 110u8,
        ];
        assert(name@ =~= api_version_header());
        let expected: Vec<u8> = vec![
            114u8, 101u8, 103u8, 105u8, 115u8, 116u8, 114u8, 121u8, 47u8, 50u8, 46u8, 48u8,
        ];
        assert(expected@ =~= api_version_value());
        match resp.header(name.as_slice()) {
            Some(v) => bytes_eq(v.as_slice(), expected.as_slice()),
            None => false,
        }
    }
}

} // verus!
