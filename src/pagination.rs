//! Lazy listing over pages joined by `Link: <url>; rel="next"` headers.
use vstd::prelude::*;

use crate::bytes::{append_bytes, opt_view};
use crate::challenge::skip_ws;
use crate::client::Client;
use crate::error::Error;
use crate::http::{copy_bytes, is_success, Response};
use crate::json::{items_view, json_string_array_member, string_array_member};

verus! {

/// `Link`
pub open spec fn link_header() -> Seq<u8> {
    seq![76u8, 105u8, 110u8, 107u8]
}

/// `rel="next"`
pub open spec fn rel_next() -> Seq<u8> {
    seq![114u8, 101u8, 108u8, 61u8, 34u8, 110u8, 101u8, 120u8, 116u8, 34u8]
}

/// First position at or after `i` that holds `b`, or the length.
pub open spec fn find_byte(s: Seq<u8>, b: u8, i: int) -> int
    decreases s.len() - i,
{
    if 0 <= i < s.len() && s[i] != b {
        find_byte(s, b, i + 1)
    } else {
        i
    }
}

/// The target of a `<url>; rel="next"` link value.
pub open spec fn link_target(h: Seq<u8>) -> Option<Seq<u8>> {
    let e = find_byte(h, 62, 1);
    let j = skip_ws(h, e + 1);
    let m = skip_ws(h, j + 1);
    if h.len() > 0 && h[0] == 60 && e < h.len() && j < h.len() && h[j] == 59 && m <= h.len()
        && h.subrange(m, h.len() as int) == rel_next() {
        Some(h.subrange(1, e))
    } else {
        None
    }
}

/// Where a link leads: a target starting with `/` is under the base URL.
pub open spec fn resolve(base: Seq<u8>, target: Seq<u8>) -> Seq<u8> {
    if target.len() > 0 && target[0] == 47 {
        base + target
    } else {
        target
    }
}

/// The next page of a response, if its `Link` header names one.
pub open spec fn next_page(base: Seq<u8>, resp: Response) -> Option<Seq<u8>> {
    match resp.header_spec(link_header()) {
        Some(h) => match link_target(h) {
            Some(t) => Some(resolve(base, t)),
            None => None,
        },
        None => None,
    }
}

fn find_byte_exec(s: &[u8], b: u8, i: usize) -> (r: usize)
    requires
        i <= s@.len(),
    ensures
        r as int == find_byte(s@, b, i as int),
        i <= r <= s@.len(),
{
    let mut j = i;
    while j < s.len() && s[j] != b
        invariant
            i <= j <= s@.len(),
            find_byte(s@, b, j as int) == find_byte(s@, b, i as int),
        decreases s@.len() - j,
    {
        j += 1;
    }
    j
}

fn skip_blanks(s: &[u8], i: usize) -> (r: usize)
    requires
        i <= s@.len(),
    ensures
        r as int == skip_ws(s@, i as int),
        i <= r <= s@.len(),
{
    let mut j = i;
    while j < s.len() && (s[j] == 32 || s[j] == 9)
        invariant
            i <= j <= s@.len(),
            skip_ws(s@, j as int) == skip_ws(s@, i as int),
        decreases s@.len() - j,
    {
        j += 1;
    }
    j
}

/// Reads the target of a `<url>; rel="next"` link value.
pub fn parse_link(h: &[u8]) -> (r: Option<Vec<u8>>)
    ensures
        opt_view(r) == link_target(h@),
{
    if h.len() == 0 || h[0] != 60 {
        return None;
    }
    let e = find_byte_exec(h, 62, 1);
    if e >= h.len() {
        return None;
    }
    let j = skip_blanks(h, e + 1);
    if j >= h.len() || h[j] != 59 {
        return None;
    }
    let m = skip_blanks(h, j + 1);
    let rel: Vec<u8> = vec![114u8, 101u8, 108u8, 61u8, 34u8, 110u8, 101u8, 120u8, 116u8, 34u8];
    assert(rel@ =~= rel_next());
    if h.len() - m != rel.len() {
        assert(h@.subrange(m as int, h@.len() as int).len() != rel_next().len());
        return None;
    }
    let ghost expected = if h@.subrange(m as int, h@.len() as int) == rel_next() {
        Some(h@.subrange(1, e as int))
    } else {
        None
    };
    assert(link_target(h@) == expected);
    let hl = h.len();
    let mut k: usize = 0;
    while k < rel.len()
        invariant
            hl == h@.len(),
            link_target(h@) == expected,
            e < h@.len(),
            expected == (if h@.subrange(m as int, h@.len() as int) == rel_next() {
                Some(h@.subrange(1, e as int))
            } else {
                None
            }),
            m + rel@.len() == h@.len(),
            rel@ == rel_next(),
            0 <= k <= rel@.len(),
            forall|q: int| 0 <= q < k ==> h@[m + q] == rel@[q],
        decreases rel@.len() - k,
    {
        if h[m + k] != rel[k] {
            assert(h@.subrange(m as int, h@.len() as int)[k as int] != rel_next()[k as int]);
            return None;
        }
        k += 1;
    }
    assert(h@.subrange(m as int, h@.len() as int) =~= rel_next());
    let mut t: Vec<u8> = Vec::new();
    let mut n: usize = 1;
    while n < e
        invariant
            1 <= n <= e,
            e < h@.len(),
            t@ == h@.subrange(1, n as int),
        decreases e - n,
    {
        t.push(h[n]);
        n += 1;
        assert(t@ =~= h@.subrange(1, n as int));
    }
    Some(t)
}

/// A listing in progress. Items come out in the order the registry sent them;
/// a page is asked for only when the items in hand are used up.
pub struct Paginator {
    /// The JSON member of each page that holds its items.
    pub key: Vec<u8>,
    /// Items of the last page not handed out yet.
    pub buffer: Vec<Vec<u8>>,
    /// The page to ask for once the buffer is empty.
    pub next: Option<Vec<u8>>,
    /// A page was asked for and has not come back yet.
    pub pending: bool,
    /// Every item handed out so far, in order.
    pub yielded: Ghost<Seq<Seq<u8>>>,
    /// Every item received so far, in order.
    pub received: Ghost<Seq<Seq<u8>>>,
    /// How many pages were asked for.
    pub fetches: Ghost<nat>,
}

/// What the consumer of a listing does next.
pub enum PageStep {
    /// The next item.
    Item(Vec<u8>),
    /// Fetch this page and hand the response to `on_page`.
    Fetch(Vec<u8>),
    /// The listing is over.
    End,
}

impl Paginator {
    pub open spec fn wf(&self) -> bool {
        &&& self.yielded@ + items_view(self.buffer@) == self.received@
        &&& self.pending ==> self.buffer@.len() == 0 && self.next is None
    }

    pub open spec fn ended(&self) -> bool {
        self.buffer@.len() == 0 && self.next is None && !self.pending
    }

    /// A listing whose first page is `url`; nothing is fetched yet.
    pub fn new(url: Vec<u8>, key: Vec<u8>) -> (r: Paginator)
        ensures
            r.wf(),
            r.key == key,
            r.buffer@.len() == 0,
            opt_view(r.next) == Some(url@),
            !r.pending,
            r.yielded@ == Seq::<Seq<u8>>::empty(),
            r.received@ == Seq::<Seq<u8>>::empty(),
            r.fetches@ == 0,
    {
        let r = Paginator {
            key,
            buffer: Vec::new(),
            next: Some(url),
            pending: false,
            yielded: Ghost(Seq::empty()),
            received: Ghost(Seq::empty()),
            fetches: Ghost(0),
        };
        assert(items_view(r.buffer@) =~= Seq::<Seq<u8>>::empty());
        assert(r.yielded@ + items_view(r.buffer@) =~= r.received@);
        r
    }

    /// The next thing to do: hand out a buffered item, fetch the next page, or end.
    pub fn poll(&mut self) -> (r: PageStep)
        requires
            old(self).wf(),
            !old(self).pending,
        ensures
            final(self).wf(),
            final(self).key == old(self).key,
            final(self).received == old(self).received,
            old(self).buffer@.len() > 0 ==> {
                &&& r matches PageStep::Item(x) && x@ == old(self).buffer@[0]@
                    && final(self).yielded@ == old(self).yielded@.push(x@)
                &&& final(self).buffer@ == old(self).buffer@.drop_first()
                &&& final(self).next == old(self).next
                &&& !final(self).pending
                &&& final(self).fetches == old(self).fetches
            },
            old(self).buffer@.len() == 0 && old(self).next is Some ==> {
                &&& r matches PageStep::Fetch(u) && Some(u@) == opt_view(old(self).next)
                &&& final(self).pending
                &&& final(self).fetches@ == old(self).fetches@ + 1
                &&& final(self).yielded == old(self).yielded
            },
            old(self).ended() ==> r is End && *final(self) == *old(self),
    {
        if self.buffer.len() > 0 {
            let x = self.buffer.remove(0);
            proof {
                self.yielded@ = self.yielded@.push(x@);
                assert(items_view(old(self).buffer@) =~= seq![x@] + items_view(self.buffer@));
                assert(self.yielded@ + items_view(self.buffer@) =~= self.received@);
            }
            return PageStep::Item(x);
        }
        match self.next.take() {
            Some(u) => {
                self.pending = true;
                proof {
                    self.fetches@ = self.fetches@ + 1;
                }
                PageStep::Fetch(u)
            },
            None => PageStep::End,
        }
    }

    /// Takes the response to the page last asked for. A page that failed or
    /// could not be read ends the listing, with none of its items.
    pub fn on_page(&mut self, client: &Client, resp: &Response) -> (r: Result<(), Error>)
        requires
            old(self).wf(),
            old(self).pending,
        ensures
            final(self).wf(),
            !final(self).pending,
            final(self).key == old(self).key,
            final(self).yielded == old(self).yielded,
            final(self).fetches == old(self).fetches,
            !is_success(resp.status) ==> {
                &&& r matches Err(Error::UnexpectedStatus(st, b)) && st == resp.status && b@
                    == resp.body@
                &&& final(self).ended()
                &&& final(self).received == old(self).received
            },
            is_success(resp.status) ==> match json_string_array_member(resp.body@, old(self).key@) {
                None => {
                    &&& r == Err::<(), Error>(Error::ProtocolViolation)
                    &&& final(self).ended()
                    &&& final(self).received == old(self).received
                },
                Some(items) => {
                    &&& r is Ok
                    &&& items_view(final(self).buffer@) == items
                    &&& final(self).received@ == old(self).received@ + items
                    &&& opt_view(final(self).next) == next_page(client.base_url@, *resp)
                },
            },
    {
        self.pending = false;
        if !(200 <= resp.status && resp.status <= 299) {
            return Err(Error::UnexpectedStatus(resp.status, copy_bytes(resp.body.as_slice())));
        }
        match string_array_member(resp.body.as_slice(), self.key.as_slice()) {
            None => Err(Error::ProtocolViolation),
            Some(items) => {
                let link: Vec<u8> = vec![76u8, 105u8, 110u8, 107u8];
                assert(link@ =~= link_header());
                self.next = match resp.header(link.as_slice()) {
                    Some(h) => match parse_link(h.as_slice()) {
                        Some(t) => Some(resolve_exec(client, t)),
                        None => None,
                    },
                    None => None,
                };
                proof {
                    self.received@ = self.received@ + items_view(items@);
                    assert(items_view(self.buffer@) =~= Seq::<Seq<u8>>::empty());
                    assert(self.yielded@ + items_view(self.buffer@) =~= old(self).received@);
                    assert(self.yielded@ + items_view(items@) =~= self.received@);
                }
                self.buffer = items;
                Ok(())
            },
        }
    }
}

fn resolve_exec(client: &Client, t: Vec<u8>) -> (r: Vec<u8>)
    ensures
        r@ == resolve(client.base_url@, t@),
{
    if t.len() > 0 && t[0] == 47 {
        let mut u = copy_bytes(client.base_url.as_slice());
        append_bytes(&mut u, t.as_slice());
        u
    } else {
        t
    }
}

/// Once a listing has ended, the items handed out are exactly the items the
/// registry sent, in the order it sent them, each as often as it sent it.
pub proof fn lemma_ended_listing_yields_all(p: Paginator)
    requires
        p.wf(),
        p.ended(),
    ensures
        p.yielded@ == p.received@,
{
    assert(items_view(p.buffer@) =~= Seq::<Seq<u8>>::empty());
    assert(p.yielded@ + items_view(p.buffer@) =~= p.yielded@);
}

} // verus!
