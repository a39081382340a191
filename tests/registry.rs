use dkregistry::auth::{select_token, token_from_response, Action, Phase};
use dkregistry::challenge::{parse_challenge, Challenge, ChallengeError};
use dkregistry::client::{Client, Config};
use dkregistry::content::{
    blob_path, catalog_path, exists_outcome, fetch_outcome, manifest_path, tags_path, Digest,
};
use dkregistry::error::Error;
use dkregistry::http::{Method, Request, Response};
use dkregistry::pagination::{parse_link, PageStep, Paginator};

fn resp(status: u16, headers: &[(&str, &str)], body: &str) -> Response {
    Response {
        status,
        headers: headers
            .iter()
            .map(|(k, v)| (k.as_bytes().to_vec(), v.as_bytes().to_vec()))
            .collect(),
        body: body.as_bytes().to_vec(),
    }
}

fn client() -> Client {
    Client::configure().registry(b"registry.example.com".to_vec()).build()
}

fn sent(a: Action) -> Request {
    match a {
        Action::Send(r) => r,
        _ => panic!("expected a request"),
    }
}

const CHALLENGE: &str =
    "Bearer realm=\"https://auth.example.com/token\",service=\"registry.example.com\",scope=\"repository:library/busybox:pull\"";

#[test]
fn challenge_with_scope() {
    let c = parse_challenge(CHALLENGE.as_bytes()).ok().unwrap();
    assert_eq!(c.realm, b"https://auth.example.com/token".to_vec());
    assert_eq!(c.service, b"registry.example.com".to_vec());
    assert_eq!(c.scope, Some(b"repository:library/busybox:pull".to_vec()));
}

#[test]
fn challenge_without_scope_and_any_case_scheme() {
    let c = parse_challenge(b"  bEaReR  realm=\"r\" , service=\"s\", other=\"x\"").ok().unwrap();
    assert_eq!(c.realm, b"r".to_vec());
    assert_eq!(c.service, b"s".to_vec());
    assert_eq!(c.scope, None);
}

#[test]
fn challenge_unescapes_quotes() {
    let c = parse_challenge(b"Bearer realm=\"a\\\"b\\\\c\",service=\"s\"").ok().unwrap();
    assert_eq!(c.realm, b"a\"b\\c".to_vec());
}

#[test]
fn challenge_errors() {
    assert_eq!(
        parse_challenge(b"Bearer service=\"s\",scope=\"x\"").err(),
        Some(ChallengeError::MissingRealm)
    );
    assert_eq!(parse_challenge(b"Bearer realm=\"r\"").err(), Some(ChallengeError::MissingService));
    assert_eq!(parse_challenge(b"Basic realm=\"r\"").err(), Some(ChallengeError::NotBearer));
    assert_eq!(parse_challenge(b"Bearer realm=\"r").err(), Some(ChallengeError::Malformed));
    assert_eq!(parse_challenge(b"Bearer realm=r").err(), Some(ChallengeError::Malformed));
    assert_eq!(
        parse_challenge(b"Bearer realm=\"r\",service=\"s\",").err(),
        Some(ChallengeError::Malformed)
    );
}

#[test]
fn challenge_round_trip() {
    let c = Challenge {
        realm: b"https://a/\"t\\".to_vec(),
        service: b"svc".to_vec(),
        scope: Some(b"repository:x:pull".to_vec()),
    };
    let h = c.to_header();
    assert_eq!(
        h,
        b"Bearer realm=\"https://a/\\\"t\\\\\",service=\"svc\",scope=\"repository:x:pull\"".to_vec()
    );
    let back = parse_challenge(&h).ok().unwrap();
    assert_eq!(back.realm, c.realm);
    assert_eq!(back.service, c.service);
    assert_eq!(back.scope, c.scope);
    let no_scope = Challenge { realm: b"r".to_vec(), service: b"s".to_vec(), scope: None };
    let back = parse_challenge(&no_scope.to_header()).ok().unwrap();
    assert_eq!(back.scope, None);
}

#[test]
fn build_and_new_request() {
    let c = Config::new();
    assert_eq!(c.index, b"registry-1.docker.io".to_vec());
    let cl = Client::configure()
        .registry(b"localhost:5000".to_vec())
        .insecure_registry(true)
        .username(Some(b"u".to_vec()))
        .password(Some(b"p".to_vec()))
        .user_agent(Some(b"agent".to_vec()))
        .build();
    assert_eq!(cl.base_url, b"http://localhost:5000".to_vec());
    assert_eq!(cl.credentials, Some((b"u".to_vec(), b"p".to_vec())));
    assert_eq!(cl.token, None);
    let r = cl.new_request(Method::Head, b"http://x/y".to_vec());
    assert_eq!(r.host, Some(b"localhost:5000".to_vec()));
    assert_eq!(r.bearer, None);
    assert_eq!(r.user_agent, Some(b"agent".to_vec()));
    let only_user = Client::configure().username(Some(b"u".to_vec())).build();
    assert_eq!(only_user.base_url, b"https://registry-1.docker.io".to_vec());
    assert_eq!(only_user.credentials, None);
}

#[test]
fn execute_retries_once_after_challenge() {
    let mut cl = client();
    cl.credentials = Some((b"u".to_vec(), b"p".to_vec()));
    let (mut ex, first) = cl.execute(Method::Get, b"/v2/library/busybox/manifests/latest");
    assert_eq!(first.url, b"https://registry.example.com/v2/library/busybox/manifests/latest".to_vec());
    assert_eq!(first.bearer, None);
    let mut calls = 1;
    let token_req = sent(ex.on_response(&mut cl, resp(401, &[("www-authenticate", CHALLENGE)], "")));
    assert_eq!(
        token_req.url,
        b"https://auth.example.com/token?service=registry.example.com&scope=repository%3Alibrary%2Fbusybox%3Apull"
            .to_vec()
    );
    assert_eq!(token_req.basic, Some((b"u".to_vec(), b"p".to_vec())));
    assert_eq!(token_req.bearer, None);
    assert_eq!(ex.phase, Phase::Authenticating);
    let retry = sent(ex.on_response(&mut cl, resp(200, &[], "{\"token\":\"abc\",\"expires_in\":300}")));
    calls += 1;
    assert_eq!(retry.bearer, Some(b"abc".to_vec()));
    assert_eq!(retry.url, first.url);
    assert_eq!(cl.token, Some(b"abc".to_vec()));
    match ex.on_response(&mut cl, resp(200, &[], "manifest")) {
        Action::Return(r) => {
            assert_eq!(r.status, 200);
            assert_eq!(r.body, b"manifest".to_vec());
        }
        _ => panic!("expected the response"),
    }
    assert_eq!(calls, 2);
    assert_eq!(ex.attempts, 2);
    assert_eq!(ex.phase, Phase::Finished);
}

#[test]
fn execute_second_401_is_final() {
    let mut cl = client();
    let (mut ex, _) = cl.execute(Method::Get, b"/v2/");
    sent(ex.on_response(&mut cl, resp(401, &[("WWW-Authenticate", CHALLENGE)], "")));
    sent(ex.on_response(&mut cl, resp(200, &[], "{\"access_token\":\"t2\"}")));
    match ex.on_response(&mut cl, resp(401, &[("WWW-Authenticate", CHALLENGE)], "")) {
        Action::Return(r) => assert_eq!(r.status, 401),
        _ => panic!("expected the response"),
    }
    assert_eq!(ex.attempts, 2);
    assert_eq!(cl.token, Some(b"t2".to_vec()));
}

#[test]
fn execute_401_without_challenge_is_returned() {
    let mut cl = client();
    cl.token = Some(b"old".to_vec());
    let (mut ex, first) = cl.execute(Method::Get, b"/v2/");
    assert_eq!(first.bearer, Some(b"old".to_vec()));
    match ex.on_response(&mut cl, resp(401, &[("Other", "x")], "denied")) {
        Action::Return(r) => {
            assert_eq!(r.status, 401);
            assert_eq!(r.body, b"denied".to_vec());
        }
        _ => panic!("expected the 401 unmodified"),
    }
    assert_eq!(ex.attempts, 1);
    assert_eq!(ex.phase, Phase::Finished);
    assert_eq!(cl.token, Some(b"old".to_vec()));
}

#[test]
fn execute_passes_other_statuses() {
    let mut cl = client();
    let (mut ex, _) = cl.execute(Method::Get, b"/v2/");
    match ex.on_response(&mut cl, resp(500, &[("WWW-Authenticate", CHALLENGE)], "")) {
        Action::Return(r) => assert_eq!(r.status, 500),
        _ => panic!("expected the response"),
    }
    assert_eq!(ex.attempts, 1);
}

#[test]
fn execute_token_denied() {
    let mut cl = client();
    let (mut ex, _) = cl.execute(Method::Get, b"/v2/");
    sent(ex.on_response(&mut cl, resp(401, &[("WWW-Authenticate", CHALLENGE)], "")));
    match ex.on_response(&mut cl, resp(403, &[], "")) {
        Action::Fail(e) => assert_eq!(e, Error::AuthenticationDenied(403)),
        _ => panic!("expected a failure"),
    }
    assert_eq!(cl.token, None);
}

#[test]
fn token_fields() {
    assert_eq!(token_from_response(&resp(200, &[], "{\"token\":\"a\",\"access_token\":\"b\"}")), Ok(b"a".to_vec()));
    assert_eq!(token_from_response(&resp(200, &[], "{\"access_token\":\"b\"}")), Ok(b"b".to_vec()));
    assert_eq!(token_from_response(&resp(200, &[], "{\"other\":1}")), Err(Error::ProtocolViolation));
    assert_eq!(token_from_response(&resp(200, &[], "not json")), Err(Error::ProtocolViolation));
    assert_eq!(token_from_response(&resp(401, &[], "{\"token\":\"a\"}")), Err(Error::AuthenticationDenied(401)));
    assert_eq!(select_token(200, None, Some(b"x".to_vec())), Ok(b"x".to_vec()));
    assert_eq!(select_token(500, Some(b"x".to_vec()), None), Err(Error::AuthenticationDenied(500)));
    assert_eq!(select_token(204, None, None), Err(Error::ProtocolViolation));
}

fn drain(p: &mut Paginator, cl: &Client, pages: &mut Vec<Response>, fetched: &mut Vec<Vec<u8>>, out: &mut Vec<Vec<u8>>) -> bool {
    match p.poll() {
        PageStep::Item(x) => {
            out.push(x);
            true
        }
        PageStep::Fetch(u) => {
            fetched.push(u);
            let r = pages.remove(0);
            p.on_page(cl, &r).unwrap();
            true
        }
        PageStep::End => false,
    }
}

fn three_pages() -> Vec<Response> {
    vec![
        resp(200, &[("Link", "</v2/_catalog?last=b&n=2>; rel=\"next\"")], "{\"repositories\":[\"a\",\"b\"]}"),
        resp(200, &[("link", "<https://other.example.com/v2/_catalog?last=c>; rel=\"next\"")], "{\"repositories\":[\"c\"]}"),
        resp(200, &[], "{\"repositories\":[]}"),
    ]
}

#[test]
fn paginator_three_pages() {
    let cl = client();
    let mut p = cl.catalog();
    let mut pages = three_pages();
    let mut fetched = Vec::new();
    let mut out = Vec::new();
    while drain(&mut p, &cl, &mut pages, &mut fetched, &mut out) {}
    assert_eq!(out, vec![b"a".to_vec(), b"b".to_vec(), b"c".to_vec()]);
    assert_eq!(
        fetched,
        vec![
            b"https://registry.example.com/v2/_catalog".to_vec(),
            b"https://registry.example.com/v2/_catalog?last=b&n=2".to_vec(),
            b"https://other.example.com/v2/_catalog?last=c".to_vec(),
        ]
    );
    assert!(matches!(p.poll(), PageStep::End));
    assert!(matches!(p.poll(), PageStep::End));
}

#[test]
fn paginator_is_lazy() {
    let cl = client();
    let mut p = cl.catalog();
    let mut pages = three_pages();
    let mut fetched = Vec::new();
    let mut out = Vec::new();
    drain(&mut p, &cl, &mut pages, &mut fetched, &mut out);
    drain(&mut p, &cl, &mut pages, &mut fetched, &mut out);
    assert_eq!(out, vec![b"a".to_vec()]);
    assert_eq!(fetched.len(), 1);
    drain(&mut p, &cl, &mut pages, &mut fetched, &mut out);
    assert_eq!(fetched.len(), 1);
    drain(&mut p, &cl, &mut pages, &mut fetched, &mut out);
    assert_eq!(fetched.len(), 2);
}

#[test]
fn paginator_page_failures_end_listing() {
    let cl = client();
    let mut p = cl.tags(b"library/busybox");
    match p.poll() {
        PageStep::Fetch(u) => assert_eq!(u, b"https://registry.example.com/v2/library/busybox/tags/list".to_vec()),
        _ => panic!("expected a fetch"),
    }
    assert_eq!(p.on_page(&cl, &resp(200, &[("Link", "</next>; rel=\"next\"")], "{\"tags\":[1]}")), Err(Error::ProtocolViolation));
    assert!(matches!(p.poll(), PageStep::End));
    let mut q = cl.tags(b"x");
    q.poll();
    assert_eq!(q.on_page(&cl, &resp(500, &[], "e")), Err(Error::UnexpectedStatus(500, b"e".to_vec())));
    assert!(matches!(q.poll(), PageStep::End));
}

#[test]
fn paginator_repeats_entries() {
    let cl = client();
    let mut p = Paginator::new(b"u".to_vec(), b"tags".to_vec());
    p.poll();
    p.on_page(&cl, &resp(200, &[("Link", "<u2>; rel=\"next\"")], "{\"tags\":[\"x\"]}")).unwrap();
    assert!(matches!(p.poll(), PageStep::Item(ref x) if x == b"x"));
    assert!(matches!(p.poll(), PageStep::Fetch(ref u) if u == b"u2"));
    p.on_page(&cl, &resp(200, &[], "{\"tags\":[\"x\"]}")).unwrap();
    assert!(matches!(p.poll(), PageStep::Item(ref x) if x == b"x"));
    assert!(matches!(p.poll(), PageStep::End));
}

#[test]
fn link_values() {
    assert_eq!(parse_link(b"</v2/_catalog?n=1>; rel=\"next\""), Some(b"/v2/_catalog?n=1".to_vec()));
    assert_eq!(parse_link(b"<x>;rel=\"next\""), Some(b"x".to_vec()));
    assert_eq!(parse_link(b"<x>; rel=\"prev\""), None);
    assert_eq!(parse_link(b"x; rel=\"next\""), None);
    assert_eq!(parse_link(b"<x"), None);
}

#[test]
fn exists_statuses() {
    assert_eq!(exists_outcome(&resp(200, &[], "")), Ok(true));
    assert_eq!(exists_outcome(&resp(404, &[], "")), Ok(false));
    assert_eq!(
        exists_outcome(&resp(500, &[], "{\"errors\":[]}")),
        Err(Error::UnexpectedStatus(500, b"{\"errors\":[]}".to_vec()))
    );
}

#[test]
fn fetch_returns_bytes_unverified() {
    let body = " not matching the digest \n";
    assert_eq!(fetch_outcome(resp(200, &[], body)), Ok(body.as_bytes().to_vec()));
    assert_eq!(fetch_outcome(resp(404, &[], "")), Err(Error::NotFound));
    assert_eq!(fetch_outcome(resp(401, &[], "x")), Err(Error::UnexpectedStatus(401, b"x".to_vec())));
    let d = Digest::parse(b"sha256:00ff").unwrap();
    assert_eq!(d.algorithm, b"sha256".to_vec());
    assert_eq!(d.hex, b"00ff".to_vec());
}

#[test]
fn v2_probe() {
    let cl = client();
    let r = cl.v2_probe_request();
    assert_eq!(r.url, b"https://registry.example.com/v2/".to_vec());
    assert!(Client::is_v2_supported(&resp(200, &[("Docker-Distribution-API-Version", "registry/2.0")], "")));
    assert!(Client::is_v2_supported(&resp(401, &[("docker-distribution-api-version", "registry/2.0")], "")));
    assert!(!Client::is_v2_supported(&resp(200, &[], "")));
    assert!(!Client::is_v2_supported(&resp(200, &[("Docker-Distribution-API-Version", "registry/1.0")], "")));
    assert!(!Client::is_v2_supported(&resp(404, &[("Docker-Distribution-API-Version", "registry/2.0")], "")));
}

#[test]
fn paths_and_digests() {
    assert_eq!(manifest_path(b"a/b", b"v1"), b"/v2/a/b/manifests/v1".to_vec());
    assert_eq!(blob_path(b"a", b"sha256:ab"), b"/v2/a/blobs/sha256:ab".to_vec());
    assert_eq!(tags_path(b"a"), b"/v2/a/tags/list".to_vec());
    assert_eq!(catalog_path(), b"/v2/_catalog".to_vec());
    assert!(Digest::parse(b"latest").is_none());
    assert!(Digest::parse(b":ab").is_none());
    assert!(Digest::parse(b"sha256:").is_none());
    assert!(Digest::parse(b"sha256:xyz").is_none());
    let a = Digest::parse(b"SHA256:ABCDEF").unwrap();
    let b = Digest::parse(b"sha256:abcdef").unwrap();
    assert!(a.same(&b));
    assert!(!a.same(&Digest::parse(b"sha256:abcde0").unwrap()));
}
