//! Parsing of `WWW-Authenticate: Bearer realm="..",service="..",scope=".."` headers.
use vstd::prelude::*;

use crate::bytes::{append_bytes, lower, lower_byte, opt_view};

verus! {

pub const SP: u8 = 32;
pub const TAB: u8 = 9;
pub const QUOTE: u8 = 34;
pub const BACKSLASH: u8 = 92;
pub const COMMA: u8 = 44;
pub const EQUALS: u8 = 61;

/// Why a challenge header could not be used.
#[derive(Clone, Copy, Debug, PartialEq, Eq, Structural)]
pub enum ChallengeError {
    /// The scheme is not `Bearer`.
    NotBearer,
    /// The parameter list is not a list of `key="value"` pairs.
    Malformed,
    MissingRealm,
    MissingService,
}

/// A parsed bearer challenge.
pub struct Challenge {
    pub realm: Vec<u8>,
    pub service: Vec<u8>,
    pub scope: Option<Vec<u8>>,
}

pub struct ChallengeModel {
    pub realm: Seq<u8>,
    pub service: Seq<u8>,
    pub scope: Option<Seq<u8>>,
}

impl View for Challenge {
    type V = ChallengeModel;

    open spec fn view(&self) -> ChallengeModel {
        ChallengeModel { realm: self.realm@, service: self.service@, scope: opt_view(self.scope) }
    }
}

pub open spec fn is_ws(b: u8) -> bool {
    b == SP || b == TAB
}

pub open spec fn is_key_stop(b: u8) -> bool {
    b == EQUALS || b == COMMA || is_ws(b) || b == QUOTE
}

/// First position at or after `i` that is not blank.
pub open spec fn skip_ws(s: Seq<u8>, i: int) -> int
    decreases s.len() - i,
{
    if 0 <= i < s.len() && is_ws(s[i]) {
        skip_ws(s, i + 1)
    } else {
        i
    }
}

/// First position at or after `i` that cannot be part of a key.
pub open spec fn key_end(s: Seq<u8>, i: int) -> int
    decreases s.len() - i,
{
    if 0 <= i < s.len() && !is_key_stop(s[i]) {
        key_end(s, i + 1)
    } else {
        i
    }
}

/// The rest of a quoted string whose text so far is `acc`, read from position `i`
/// (just after the opening quote or an earlier character): the unescaped text and
/// the position after the closing quote, or `None` when the quote is never closed.
pub open spec fn quoted_acc(s: Seq<u8>, i: int, acc: Seq<u8>) -> Option<(Seq<u8>, int)>
    decreases s.len() - i,
{
    if i < 0 || i >= s.len() {
        None
    } else if s[i] == QUOTE {
        Some((acc, i + 1))
    } else if s[i] == BACKSLASH {
        if i + 1 >= s.len() {
            None
        } else {
            quoted_acc(s, i + 2, acc.push(s[i + 1]))
        }
    } else {
        quoted_acc(s, i + 1, acc.push(s[i]))
    }
}

/// The `key="value"` pairs from position `i` on, after the pairs `acc` already read.
pub open spec fn params_acc(s: Seq<u8>, i: int, acc: Seq<(Seq<u8>, Seq<u8>)>) -> Option<
    Seq<(Seq<u8>, Seq<u8>)>,
>
    decreases s.len() - i,
{
    let k = key_end(s, i);
    if !(0 <= i < k && k + 1 < s.len() && s[k] == EQUALS && s[k + 1] == QUOTE) {
        None
    } else {
        match quoted_acc(s, k + 2, Seq::empty()) {
            None => None,
            Some((v, e)) => {
                let pairs = acc.push((s.subrange(i, k), v));
                let j = skip_ws(s, e);
                if j >= s.len() {
                    Some(pairs)
                } else if s[j] != COMMA {
                    None
                } else {
                    let n = skip_ws(s, j + 1);
                    // `n` is always past `i`; the test keeps the measure plain.
                    if !(i < n <= s.len()) {
                        None
                    } else {
                        params_acc(s, n, pairs)
                    }
                }
            },
        }
    }
}

/// The value of the last pair with the given key.
pub open spec fn lookup(ps: Seq<(Seq<u8>, Seq<u8>)>, key: Seq<u8>) -> Option<Seq<u8>>
    decreases ps.len(),
{
    if ps.len() == 0 {
        None
    } else if ps.last().0 == key {
        Some(ps.last().1)
    } else {
        lookup(ps.drop_last(), key)
    }
}

/// Where the parameters start, when the header opens with the scheme `Bearer`
/// (any case) and a blank.
pub open spec fn scheme_end(h: Seq<u8>) -> Option<int> {
    let a = skip_ws(h, 0);
    if a + 7 <= h.len() && lower(h[a]) == 98 && lower(h[a + 1]) == 101 && lower(h[a + 2]) == 97
        && lower(h[a + 3]) == 114 && lower(h[a + 4]) == 101 && lower(h[a + 5]) == 114 && is_ws(
        h[a + 6],
    ) {
        Some(skip_ws(h, a + 6))
    } else {
        None
    }
}

pub open spec fn realm_key() -> Seq<u8> {
    seq![114u8, 101u8, 97u8, 108u8, 109u8]
}

pub open spec fn service_key() -> Seq<u8> {
    seq![115u8, 101u8, 114u8, 118u8, 105u8, 99u8, 101u8]
}

pub open spec fn scope_key() -> Seq<u8> {
    seq![115u8, 99u8, 111u8, 112u8, 101u8]
}

/// The meaning of a challenge header.
pub open spec fn parse_challenge_spec(h: Seq<u8>) -> Result<ChallengeModel, ChallengeError> {
    match scheme_end(h) {
        None => Err(ChallengeError::NotBearer),
        Some(p) => match params_acc(h, p, Seq::empty()) {
            None => Err(ChallengeError::Malformed),
            Some(ps) => match (lookup(ps, realm_key()), lookup(ps, service_key())) {
                (None, _) => Err(ChallengeError::MissingRealm),
                (Some(_), None) => Err(ChallengeError::MissingService),
                (Some(r), Some(sv)) => Ok(
                    ChallengeModel { realm: r, service: sv, scope: lookup(ps, scope_key()) },
                ),
            },
        },
    }
}

fn realm_bytes() -> (r: Vec<u8>)
    ensures
        r@ == realm_key(),
{
    let r: Vec<u8> = vec![114u8, 101u8, 97u8, 108u8, 109u8];
    assert(r@ =~= realm_key());
    r
}

fn service_bytes() -> (r: Vec<u8>)
    ensures
        r@ == service_key(),
{
    let r: Vec<u8> = vec![115u8, 101u8, 114u8, 118u8, 105u8, 99u8, 101u8];
    assert(r@ =~= service_key());
    r
}

fn scope_bytes() -> (r: Vec<u8>)
    ensures
        r@ == scope_key(),
{
    let r: Vec<u8> = vec![115u8, 99u8, 111u8, 112u8, 101u8];
    assert(r@ =~= scope_key());
    r
}

/// Whether `s[i..k]` is `lit`.
fn range_eq(s: &[u8], i: usize, k: usize, lit: &Vec<u8>) -> (r: bool)
    requires
        i <= k <= s@.len(),
    ensures
        r == (s@.subrange(i as int, k as int) == lit@),
{
    if k - i != lit.len() {
        return false;
    }
    let mut n: usize = 0;
    while n < lit.len()
        invariant
            k - i == lit@.len(),
            i <= k <= s@.len(),
            0 <= n <= lit@.len(),
            forall|m: int| 0 <= m < n ==> s@[i + m] == lit@[m],
        decreases lit@.len() - n,
    {
        if s[i + n] != lit[n] {
            assert(s@.subrange(i as int, k as int)[n as int] != lit@[n as int]);
            return false;
        }
        n += 1;
    }
    assert(s@.subrange(i as int, k as int) =~= lit@);
    true
}

fn is_ws_byte(b: u8) -> (r: bool)
    ensures
        r == is_ws(b),
{
    b == SP || b == TAB
}

fn skip_ws_exec(s: &[u8], i: usize) -> (r: usize)
    requires
        i <= s@.len(),
    ensures
        r as int == skip_ws(s@, i as int),
        i <= r <= s@.len(),
{
    let mut j = i;
    while j < s.len() && is_ws_byte(s[j])
        invariant
            i <= j <= s@.len(),
            skip_ws(s@, j as int) == skip_ws(s@, i as int),
        decreases s@.len() - j,
    {
        j += 1;
    }
    j
}

fn key_end_exec(s: &[u8], i: usize) -> (r: usize)
    requires
        i <= s@.len(),
    ensures
        r as int == key_end(s@, i as int),
        i <= r <= s@.len(),
{
    let mut j = i;
    while j < s.len() && !(s[j] == EQUALS || s[j] == COMMA || is_ws_byte(s[j]) || s[j] == QUOTE)
        invariant
            i <= j <= s@.len(),
            key_end(s@, j as int) == key_end(s@, i as int),
        decreases s@.len() - j,
    {
        j += 1;
    }
    j
}

fn quoted_exec(s: &[u8], i: usize) -> (r: Option<(Vec<u8>, usize)>)
    requires
        i <= s@.len(),
    ensures
        match quoted_acc(s@, i as int, Seq::empty()) {
            None => r is None,
            Some((v, e)) => r matches Some((rv, re)) && rv@ == v && re as int == e && i < e
                <= s@.len(),
        },
{
    let mut acc: Vec<u8> = Vec::new();
    let mut j = i;
    while j < s.len()
        invariant
            i <= j <= s@.len(),
            quoted_acc(s@, j as int, acc@) == quoted_acc(s@, i as int, Seq::<u8>::empty()),
        decreases s@.len() - j,
    {
        if s[j] == QUOTE {
            return Some((acc, j + 1));
        } else if s[j] == BACKSLASH {
            if j + 1 >= s.len() {
                return None;
            }
            acc.push(s[j + 1]);
            j += 2;
        } else {
            acc.push(s[j]);
            j += 1;
        }
    }
    None
}

/// Parses the value of a `WWW-Authenticate` header.
pub fn parse_challenge(h: &[u8]) -> (r: Result<Challenge, ChallengeError>)
    ensures
        match parse_challenge_spec(h@) {
            Ok(m) => r matches Ok(c) && c@ == m,
            Err(e) => r == Err::<Challenge, ChallengeError>(e),
        },
{
    let a = skip_ws_exec(h, 0);
    if !(a < h.len() && h.len() - a >= 7 && lower_byte(h[a]) == 98 && lower_byte(h[a + 1]) == 101 && lower_byte(
        h[a + 2],
    ) == 97 && lower_byte(h[a + 3]) == 114 && lower_byte(h[a + 4]) == 101 && lower_byte(h[a + 5])
        == 114 && is_ws_byte(h[a + 6])) {
        return Err(ChallengeError::NotBearer);
    }
    let p = skip_ws_exec(h, a + 6);
    let mut i = p;
    let ghost mut acc: Seq<(Seq<u8>, Seq<u8>)> = Seq::empty();
    let mut realm: Option<Vec<u8>> = None;
    let mut service: Option<Vec<u8>> = None;
    let mut scope: Option<Vec<u8>> = None;
    loop
        invariant
            p <= i <= h@.len(),
            scheme_end(h@) == Some(p as int),
            params_acc(h@, i as int, acc) == params_acc(h@, p as int, Seq::empty()),
            opt_view(realm) == lookup(acc, realm_key()),
            opt_view(service) == lookup(acc, service_key()),
            opt_view(scope) == lookup(acc, scope_key()),
        decreases h@.len() - i,
    {
        let k = key_end_exec(h, i);
        if !(i < k && k < h.len() && h.len() - k > 1 && h[k] == EQUALS && h[k + 1] == QUOTE) {
            return Err(ChallengeError::Malformed);
        }
        let (v, e) = match quoted_exec(h, k + 2) {
            None => {
                return Err(ChallengeError::Malformed);
            },
            Some(q) => q,
        };
        let ghost old_acc = acc;
        let ghost pair = (h@.subrange(i as int, k as int), v@);
        proof {
            acc = acc.push(pair);
            assert(acc.drop_last() =~= old_acc);
        }
        if range_eq(h, i, k, &realm_bytes()) {
            realm = Some(v);
        } else if range_eq(h, i, k, &service_bytes()) {
            service = Some(v);
        } else if range_eq(h, i, k, &scope_bytes()) {
            scope = Some(v);
        }
        let j = skip_ws_exec(h, e);
        if j >= h.len() {
            return match (realm, service) {
                (None, _) => Err(ChallengeError::MissingRealm),
                (Some(_), None) => Err(ChallengeError::MissingService),
                (Some(r), Some(sv)) => Ok(Challenge { realm: r, service: sv, scope }),
            };
        }
        if h[j] != COMMA {
            return Err(ChallengeError::Malformed);
        }
        i = skip_ws_exec(h, j + 1);
    }
}

/// A value inside quotes: `"` and `\\` get a backslash before them.
pub open spec fn escape(v: Seq<u8>) -> Seq<u8>
    decreases v.len(),
{
    if v.len() == 0 {
        Seq::empty()
    } else {
        escape_byte(v[0]) + escape(v.drop_first())
    }
}

pub open spec fn escape_byte(c: u8) -> Seq<u8> {
    if c == QUOTE || c == BACKSLASH {
        seq![BACKSLASH, c]
    } else {
        seq![c]
    }
}

/// `key="value"`, with the value escaped.
pub open spec fn param_text(key: Seq<u8>, v: Seq<u8>) -> Seq<u8> {
    key + seq![EQUALS, QUOTE] + escape(v) + seq![QUOTE]
}

pub open spec fn bearer_word() -> Seq<u8> {
    seq![66u8, 101u8, 97u8, 114u8, 101u8, 114u8]
}

/// The header text that states a challenge.
pub open spec fn challenge_header(c: ChallengeModel) -> Seq<u8> {
    bearer_word() + seq![SP] + param_text(realm_key(), c.realm) + seq![COMMA] + param_text(
        service_key(),
        c.service,
    ) + match c.scope {
        Some(sc) => seq![COMMA] + param_text(scope_key(), sc),
        None => Seq::empty(),
    }
}

pub proof fn lemma_escape_push(v: Seq<u8>, c: u8)
    ensures
        escape(v.push(c)) == escape(v) + escape_byte(c),
    decreases v.len(),
{
    let w = v.push(c);
    assert(w[0] == if v.len() == 0 { c } else { v[0] });
    assert(escape(w) == escape_byte(w[0]) + escape(w.drop_first()));
    if v.len() == 0 {
        assert(w.drop_first() =~= Seq::<u8>::empty());
        assert(escape(Seq::<u8>::empty()) =~= Seq::<u8>::empty());
        assert(escape(v.push(c)) =~= escape(v) + escape_byte(c));
    } else {
        assert(v.push(c).drop_first() =~= v.drop_first().push(c));
        lemma_escape_push(v.drop_first(), c);
        assert(escape(v.push(c)) =~= escape(v) + escape_byte(c));
    }
}

proof fn lemma_quoted_escape(s: Seq<u8>, i: int, acc: Seq<u8>, v: Seq<u8>)
    requires
        0 <= i,
        i + escape(v).len() < s.len(),
        s.subrange(i, i + escape(v).len()) == escape(v),
        s[i + escape(v).len()] == QUOTE,
    ensures
        quoted_acc(s, i, acc) == Some((acc + v, i + escape(v).len() + 1)),
    decreases v.len(),
{
    let ev = escape(v);
    if v.len() == 0 {
        assert(acc + v =~= acc);
    } else {
        let c = v[0];
        let t = v.drop_first();
        let w = escape_byte(c).len();
        assert(ev == escape_byte(c) + escape(t));
        assert(s[i] == ev[0]);
        assert(s.subrange(i + w, i + w + escape(t).len()) =~= escape(t)) by {
            assert forall|m: int| 0 <= m < escape(t).len() implies s[i + w + m] == escape(t)[m] by {
                assert(s.subrange(i, i + ev.len())[w + m] == ev[w + m]);
            }
        }
        if c == QUOTE || c == BACKSLASH {
            assert(s[i + 1] == s.subrange(i, i + ev.len())[1]);
        }
        lemma_quoted_escape(s, i + w, acc.push(c), t);
        assert(acc.push(c) + t =~= acc + v);
    }
}

proof fn lemma_key_end(s: Seq<u8>, i: int, n: int)
    requires
        0 <= i,
        0 <= n,
        i + n < s.len(),
        forall|m: int| 0 <= m < n ==> !is_key_stop(#[trigger] s[i + m]),
        is_key_stop(s[i + n]),
    ensures
        key_end(s, i) == i + n,
    decreases n,
{
    if n > 0 {
        assert(!is_key_stop(s[i + 0]));
        assert forall|m: int| 0 <= m < n - 1 implies !is_key_stop(#[trigger] s[i + 1 + m]) by {
            assert(!is_key_stop(s[i + (m + 1)]));
        }
        lemma_key_end(s, i + 1, n - 1);
    }
}

pub open spec fn plain_key(key: Seq<u8>) -> bool {
    key.len() > 0 && forall|m: int| 0 <= m < key.len() ==> !is_key_stop(#[trigger] key[m])
}

/// One `key="value"` pair read where the text is `pre`, the pair, then `post`.
proof fn lemma_param(
    pre: Seq<u8>,
    key: Seq<u8>,
    v: Seq<u8>,
    post: Seq<u8>,
    acc: Seq<(Seq<u8>, Seq<u8>)>,
)
    requires
        plain_key(key),
        post.len() == 0 || (post.len() > 1 && post[0] == COMMA && !is_ws(post[1]) && post[1]
            != COMMA),
    ensures
        ({
            let s = pre + param_text(key, v) + post;
            let e = pre.len() + param_text(key, v).len();
            let pairs = acc.push((key, v));
            &&& post.len() == 0 ==> params_acc(s, pre.len() as int, acc) == Some(pairs)
            &&& post.len() > 0 ==> params_acc(s, pre.len() as int, acc) == params_acc(
                s,
                e + 1int,
                pairs,
            )
        }),
{
    let s = pre + param_text(key, v) + post;
    let i = pre.len() as int;
    let k = i + key.len();
    let ev = escape(v);
    let e = (pre.len() + param_text(key, v).len()) as int;
    assert(param_text(key, v).len() == key.len() + 2 + ev.len() + 1);
    assert forall|m: int| 0 <= m < key.len() implies s[i + m] == key[m] by {
        assert(param_text(key, v)[m] == key[m]);
    }
    assert(s[k] == EQUALS) by {
        assert(param_text(key, v)[key.len() as int] == EQUALS);
    }
    assert(s[k + 1] == QUOTE) by {
        assert(param_text(key, v)[key.len() + 1int] == QUOTE);
    }
    assert forall|m: int| 0 <= m < key.len() implies !is_key_stop(#[trigger] s[i + m]) by {
        assert(s[i + m] == key[m]);
    }
    lemma_key_end(s, i, key.len() as int);
    assert(s.subrange(k + 2, k + 2 + ev.len()) =~= ev) by {
        assert forall|m: int| 0 <= m < ev.len() implies s[k + 2 + m] == ev[m] by {
            assert(param_text(key, v)[key.len() + 2 + m] == ev[m]);
        }
    }
    assert(s[k + 2 + ev.len()] == QUOTE) by {
        assert(param_text(key, v)[key.len() + 2 + ev.len() as int] == QUOTE);
    }
    lemma_quoted_escape(s, k + 2, Seq::empty(), v);
    assert(Seq::<u8>::empty() + v =~= v);
    assert(s.subrange(i, k) =~= key);
    assert(e == k + 2 + ev.len() + 1);
    if post.len() > 0 {
        assert(s[e] == post[0]);
        assert(s[e + 1] == post[1]);
    }
}

proof fn lemma_scheme(rest: Seq<u8>)
    requires
        rest.len() > 0,
        !is_ws(rest[0]),
    ensures
        scheme_end(bearer_word() + seq![SP] + rest) == Some(7int),
{
    let h = bearer_word() + seq![SP] + rest;
    assert(h[0] == 66u8);
    assert(skip_ws(h, 0) == 0);
    assert(h[1] == 101u8 && h[2] == 97u8 && h[3] == 114u8 && h[4] == 101u8 && h[5] == 114u8);
    assert(h[6] == SP);
    assert(h[7] == rest[0]);
    assert(skip_ws(h, 7) == 7);
    assert(skip_ws(h, 6) == 7);
}

proof fn lemma_lookups(r: Seq<u8>, sv: Seq<u8>, scope: Option<Seq<u8>>)
    ensures
        ({
            let a2 = seq![(realm_key(), r), (service_key(), sv)];
            let ps = match scope {
                Some(sc) => a2.push((scope_key(), sc)),
                None => a2,
            };
            &&& lookup(ps, realm_key()) == Some(r)
            &&& lookup(ps, service_key()) == Some(sv)
            &&& lookup(ps, scope_key()) == scope
        }),
{
    let a2 = seq![(realm_key(), r), (service_key(), sv)];
    let a1 = seq![(realm_key(), r)];
    assert(a2.drop_last() =~= a1);
    assert(a1.drop_last() =~= Seq::<(Seq<u8>, Seq<u8>)>::empty());
    assert(realm_key()[0] != scope_key()[0]);
    assert(realm_key() != service_key());
    assert(scope_key() != service_key());
    assert(lookup(a1, realm_key()) == Some(r));
    assert(lookup(a1.drop_last(), scope_key()) == None::<Seq<u8>>);
    assert(lookup(a1, scope_key()) == None::<Seq<u8>>);
    assert(lookup(a2, scope_key()) == None::<Seq<u8>>);
    match scope {
        Some(sc) => {
            let a3 = a2.push((scope_key(), sc));
            assert(a3.drop_last() =~= a2);
        },
        None => {},
    }
}

/// Reading the header that states a challenge gives that challenge back.
#[verifier::rlimit(80)]
pub proof fn lemma_challenge_round_trip(c: ChallengeModel)
    ensures
        parse_challenge_spec(challenge_header(c)) == Ok::<ChallengeModel, ChallengeError>(c),
{
    let h = challenge_header(c);
    let head = bearer_word() + seq![SP];
    let pr = param_text(realm_key(), c.realm);
    let ps = param_text(service_key(), c.service);
    let tail: Seq<u8> = match c.scope {
        Some(sc) => seq![COMMA] + param_text(scope_key(), sc),
        None => Seq::empty(),
    };
    let post1 = seq![COMMA] + ps + tail;
    assert(h =~= head + (pr + post1));
    assert(pr[0] == 114u8);
    lemma_scheme(pr + post1);
    assert(h =~= head + pr + post1);
    assert(plain_key(realm_key()));
    assert(plain_key(service_key()));
    assert(plain_key(scope_key()));
    assert(post1[1] == ps[0]);
    assert(ps[0] == 115u8);
    lemma_param(head, realm_key(), c.realm, post1, Seq::empty());
    let a1 = seq![(realm_key(), c.realm)];
    assert(Seq::<(Seq<u8>, Seq<u8>)>::empty().push((realm_key(), c.realm)) =~= a1);
    let pre2 = head + pr + seq![COMMA];
    assert(h =~= pre2 + ps + tail);
    let a2 = seq![(realm_key(), c.realm), (service_key(), c.service)];
    assert(a1.push((service_key(), c.service)) =~= a2);
    lemma_lookups(c.realm, c.service, c.scope);
    match c.scope {
        Some(sc) => {
            let pc = param_text(scope_key(), sc);
            assert(tail[1] == pc[0]);
            assert(pc[0] == 115u8);
            lemma_param(pre2, service_key(), c.service, tail, a1);
            let pre3 = pre2 + ps + seq![COMMA];
            assert(h =~= pre3 + pc + Seq::<u8>::empty());
            lemma_param(pre3, scope_key(), sc, Seq::empty(), a2);
        },
        None => {
            assert(h =~= pre2 + ps + Seq::<u8>::empty());
            lemma_param(pre2, service_key(), c.service, Seq::empty(), a1);
        },
    }
}

/// A header whose parameters carry no `realm` is refused.
pub proof fn lemma_missing_realm_fails(h: Seq<u8>)
    requires
        scheme_end(h) matches Some(p) && params_acc(h, p, Seq::empty()) matches Some(ps) && lookup(
            ps,
            realm_key(),
        ) is None,
    ensures
        parse_challenge_spec(h) == Err::<ChallengeModel, ChallengeError>(
            ChallengeError::MissingRealm,
        ),
{
}

fn push_escaped(out: &mut Vec<u8>, v: &[u8])
    ensures
        final(out)@ == old(out)@ + escape(v@),
{
    let mut n: usize = 0;
    while n < v.len()
        invariant
            0 <= n <= v@.len(),
            out@ == old(out)@ + escape(v@.subrange(0, n as int)),
        decreases v@.len() - n,
    {
        let c = v[n];
        proof {
            lemma_escape_push(v@.subrange(0, n as int), c);
            assert(v@.subrange(0, n + 1) =~= v@.subrange(0, n as int).push(c));
        }
        if c == QUOTE || c == BACKSLASH {
            out.push(BACKSLASH);
        }
        out.push(c);
        n += 1;
        assert(out@ =~= old(out)@ + escape(v@.subrange(0, n as int)));
    }
    assert(v@.subrange(0, v@.len() as int) =~= v@);
}

fn push_param(out: &mut Vec<u8>, key: &[u8], v: &[u8])
    ensures
        final(out)@ == old(out)@ + param_text(key@, v@),
{
    append_bytes(out, key);
    out.push(EQUALS);
    out.push(QUOTE);
    push_escaped(out, v);
    out.push(QUOTE);
    assert(out@ =~= old(out)@ + param_text(key@, v@));
}

impl Challenge {
    /// The header text that states this challenge; reading it back gives the same
    /// challenge (see `lemma_challenge_round_trip`).
    pub fn to_header(&self) -> (r: Vec<u8>)
        ensures
            r@ == challenge_header(self@),
    {
        let mut out: Vec<u8> = vec![66u8, 101u8, 97u8, 114u8, 101u8, 114u8, SP];
        assert(out@ =~= bearer_word() + seq![SP]);
        push_param(&mut out, realm_bytes().as_slice(), self.realm.as_slice());
        out.push(COMMA);
        push_param(&mut out, service_bytes().as_slice(), self.service.as_slice());
        match &self.scope {
            Some(sc) => {
                out.push(COMMA);
                push_param(&mut out, scope_bytes().as_slice(), sc.as_slice());
            },
            None => {},
        }
        assert(out@ =~= challenge_header(self@));
        out
    }
}

} // verus!
