//! Content-addressed retrieval: request paths, existence probes, fetches, digests.
use vstd::prelude::*;

use crate::bytes::{append_bytes, bytes_eq_ignore_case, eq_ignore_case};
use crate::client::{v2_root, Client};
use crate::error::Error;
use crate::http::{is_success, Response};
use crate::pagination::Paginator;

verus! {

/// `/manifests/`
pub open spec fn manifests_seg() -> Seq<u8> {
    seq![47u8, 109u8, 97u8, 110u8, 105u8, 102u8, 101u8, 115u8, 116u8, 115u8, 47u8]
}

/// `/blobs/`
pub open spec fn blobs_seg() -> Seq<u8> {
    seq![47u8, 98u8, 108u8, 111u8, 98u8, 115u8, 47u8]
}

/// `/tags/list`
pub open spec fn tags_seg() -> Seq<u8> {
    seq![47u8, 116u8, 97u8, 103u8, 115u8, 47u8, 108u8, 105u8, 115u8, 116u8]
}

/// `/v2/_catalog`
pub open spec fn catalog_path_spec() -> Seq<u8> {
    seq![47u8, 118u8, 50u8, 47u8, 95u8, 99u8, 97u8, 116u8, 97u8, 108u8, 111u8, 103u8]
}

/// `repositories`
pub open spec fn repositories_key() -> Seq<u8> {
    seq![114u8, 101u8, 112u8, 111u8, 115u8, 105u8, 116u8, 111u8, 114u8, 105u8, 101u8, 115u8]
}

/// `tags`
pub open spec fn tags_key() -> Seq<u8> {
    seq![116u8, 97u8, 103u8, 115u8]
}

fn v2_root_bytes() -> (r: Vec<u8>)
    ensures
        r@ == v2_root(),
{
    let r: Vec<u8> = vec![47u8, 118u8, 50u8, 47u8];
    assert(r@ =~= v2_root());
    r
}

/// `/v2/<name>/manifests/<reference>`
pub fn manifest_path(name: &[u8], reference: &[u8]) -> (r: Vec<u8>)
    ensures
        r@ == v2_root() + name@ + manifests_seg() + reference@,
{
    let mut p = v2_root_bytes();
    append_bytes(&mut p, name);
    let seg: Vec<u8> = vec![47u8, 109u8, 97u8, 110u8, 105u8, 102u8, 101u8, 115u8, 116u8, 115u8, 47u8];
    assert(seg@ =~= manifests_seg());
    append_bytes(&mut p, seg.as_slice());
    append_bytes(&mut p, reference);
    p
}

/// `/v2/<name>/blobs/<digest>`
pub fn blob_path(name: &[u8], digest: &[u8]) -> (r: Vec<u8>)
    ensures
        r@ == v2_root() + name@ + blobs_seg() + digest@,
{
    let mut p = v2_root_bytes();
    append_bytes(&mut p, name);
    let seg: Vec<u8> = vec![47u8, 98u8, 108u8, 111u8, 98u8, 115u8, 47u8];
    assert(seg@ =~= blobs_seg());
    append_bytes(&mut p, seg.as_slice());
    append_bytes(&mut p, digest);
    p
}

/// `/v2/<name>/tags/list`
pub fn tags_path(name: &[u8]) -> (r: Vec<u8>)
    ensures
        r@ == v2_root() + name@ + tags_seg(),
{
    let mut p = v2_root_bytes();
    append_bytes(&mut p, name);
    let seg: Vec<u8> = vec![47u8, 116u8, 97u8, 103u8, 115u8, 47u8, 108u8, 105u8, 115u8, 116u8];
    assert(seg@ =~= tags_seg());
    append_bytes(&mut p, seg.as_slice());
    p
}

/// `/v2/_catalog`
pub fn catalog_path() -> (r: Vec<u8>)
    ensures
        r@ == catalog_path_spec(),
{
    let r: Vec<u8> = vec![47u8, 118u8, 50u8, 47u8, 95u8, 99u8, 97u8, 116u8, 97u8, 108u8, 111u8, 103u8];
    assert(r@ =~= catalog_path_spec());
    r
}

/// What an existence probe answered with this status means: present, absent,
/// or undetermined (an error that carries the status and body).
pub fn exists_outcome(resp: &Response) -> (r: Result<bool, Error>)
    ensures
        is_success(resp.status) ==> r == Ok::<bool, Error>(true),
        resp.status == 404 ==> r == Ok::<bool, Error>(false),
        !is_success(resp.status) && resp.status != 404 ==> (r matches Err(
            Error::UnexpectedStatus(st, b),
        ) && st == resp.status && b@ == resp.body@),
{
    if 200 <= resp.status && resp.status <= 299 {
        Ok(true)
    } else if resp.status == 404 {
        Ok(false)
    } else {
        Err(Error::UnexpectedStatus(resp.status, crate::http::copy_bytes(resp.body.as_slice())))
    }
}

/// The content a fetch answered with: the body exactly as received on success.
/// Whether it matches a digest is for the caller to check.
pub fn fetch_outcome(resp: Response) -> (r: Result<Vec<u8>, Error>)
    ensures
        is_success(resp.status) ==> (r matches Ok(b) && b == resp.body),
        resp.status == 404 ==> r == Err::<Vec<u8>, Error>(Error::NotFound),
        !is_success(resp.status) && resp.status != 404 ==> r == Err::<Vec<u8>, Error>(
            Error::UnexpectedStatus(resp.status, resp.body),
        ),
{
    if 200 <= resp.status && resp.status <= 299 {
        Ok(resp.body)
    } else if resp.status == 404 {
        Err(Error::NotFound)
    } else {
        Err(Error::UnexpectedStatus(resp.status, resp.body))
    }
}

impl Client {
    /// The listing of all repositories.
    pub fn catalog(&self) -> (r: Paginator)
        ensures
            r.wf(),
            r.key@ == repositories_key(),
            r.buffer@.len() == 0,
            crate::bytes::opt_view(r.next) == Some(self.base_url@ + catalog_path_spec()),
            !r.pending,
            r.received@ == Seq::<Seq<u8>>::empty(),
            r.fetches@ == 0,
    {
        let key: Vec<u8> = vec![
            114u8, 101u8, 112u8, 111u8, 115u8, 105u8, 116u8, 111u8, 114u8, 105u8, 101u8, 115u8,
        ];
        assert(key@ =~= repositories_key());
        Paginator::new(self.url_for(catalog_path().as_slice()), key)
    }

    /// The listing of the tags of repository `name`.
    pub fn tags(&self, name: &[u8]) -> (r: Paginator)
        ensures
            r.wf(),
            r.key@ == tags_key(),
            r.buffer@.len() == 0,
            crate::bytes::opt_view(r.next) == Some(
                self.base_url@ + (v2_root() + name@ + tags_seg()),
            ),
            !r.pending,
            r.received@ == Seq::<Seq<u8>>::empty(),
            r.fetches@ == 0,
    {
        let key: Vec<u8> = vec![116u8, 97u8, 103u8, 115u8];
        assert(key@ =~= tags_key());
        Paginator::new(self.url_for(tags_path(name).as_slice()), key)
    }
}

/// A content digest: `<algorithm>:<hex>`.
pub struct Digest {
    pub algorithm: Vec<u8>,
    pub hex: Vec<u8>,
}

pub open spec fn is_hex(b: u8) -> bool {
    (48 <= b <= 57) || (97 <= b <= 102) || (65 <= b <= 70)
}

/// The digest written as `s`: a non-empty algorithm name without `:`, a `:`, and
/// a non-empty run of hexadecimal digits.
pub open spec fn digest_spec(s: Seq<u8>) -> Option<(Seq<u8>, Seq<u8>)> {
    let c = crate::pagination::find_byte(s, 58, 0);
    if 0 < c < s.len() - 1 && forall|k: int| c < k < s.len() ==> is_hex(#[trigger] s[k]) {
        Some((s.subrange(0, c), s.subrange(c + 1, s.len() as int)))
    } else {
        None
    }
}

impl Digest {
    /// Reads a digest reference.
    pub fn parse(s: &[u8]) -> (r: Option<Digest>)
        ensures
            match digest_spec(s@) {
                Some((a, h)) => r matches Some(d) && d.algorithm@ == a && d.hex@ == h,
                None => r is None,
            },
    {
        let mut c: usize = 0;
        while c < s.len() && s[c] != 58
            invariant
                0 <= c <= s@.len(),
                crate::pagination::find_byte(s@, 58, c as int) == crate::pagination::find_byte(
                    s@,
                    58,
                    0,
                ),
            decreases s@.len() - c,
        {
            c += 1;
        }
        if c == 0 || s.len() - c < 2 {
            return None;
        }
        let mut algorithm: Vec<u8> = Vec::new();
        let mut hex: Vec<u8> = Vec::new();
        let mut k: usize = 0;
        while k < s.len()
            invariant
                c as int == crate::pagination::find_byte(s@, 58, 0),
                0 < c < s@.len() - 1,
                0 <= k <= s@.len(),
                forall|q: int| c < q < k ==> is_hex(#[trigger] s@[q]),
                k <= c ==> algorithm@ == s@.subrange(0, k as int) && hex@.len() == 0,
                k > c ==> algorithm@ == s@.subrange(0, c as int) && hex@ == s@.subrange(
                    c + 1,
                    k as int,
                ),
            decreases s@.len() - k,
        {
            let b = s[k];
            if k < c {
                algorithm.push(b);
            } else if k > c {
                if !((48 <= b && b <= 57) || (97 <= b && b <= 102) || (65 <= b && b <= 70)) {
                    assert(!is_hex(s@[k as int]));
                    return None;
                }
                hex.push(b);
            }
            k += 1;
            assert(algorithm@ =~= s@.subrange(0, if k <= c { k as int } else { c as int }));
            if k > c + 1 {
                assert(hex@ =~= s@.subrange(c + 1, k as int));
            } else if k == c + 1 {
                assert(hex@ =~= s@.subrange(c + 1, k as int));
            }
        }
        Some(Digest { algorithm, hex })
    }

    /// Whether two digests name the same content: equal up to ASCII case.
    pub fn same(&self, other: &Digest) -> (r: bool)
        ensures
            r == (eq_ignore_case(self.algorithm@, other.algorithm@) && eq_ignore_case(
                self.hex@,
                other.hex@,
            )),
    {
        bytes_eq_ignore_case(self.algorithm.as_slice(), other.algorithm.as_slice())
            && bytes_eq_ignore_case(self.hex.as_slice(), other.hex.as_slice())
    }
}

} // verus!
