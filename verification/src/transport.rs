//! The transport boundary: what one non-following request attempt needs and
//! what it can produce.
//!
//! The driver that owns sockets performs the request described by a
//! `RequestSpec` and hands the outcome back as a `TransportEvent`; response
//! classification itself is done by the fetcher.

use vstd::prelude::*;

use crate::bytestr::{clone_bytes, lower_bytes, to_lower_bytes, COMMA};
use crate::headers::Headers;

verus! {

/// Abstract value of a `RequestSpec`.
pub struct RequestSpecView {
    pub url: Seq<u8>,
    pub if_none_match: Option<Seq<u8>>,
    pub authorization: Option<Seq<u8>>,
    pub accept: Option<Seq<u8>>,
}

/// One conditional, non-redirect-following request: the URL and the headers
/// to attach.
pub struct RequestSpec {
    pub url: Vec<u8>,
    pub if_none_match: Option<Vec<u8>>,
    pub authorization: Option<Vec<u8>>,
    pub accept: Option<Vec<u8>>,
}

impl View for RequestSpec {
    type V = RequestSpecView;

    open spec fn view(&self) -> RequestSpecView {
        RequestSpecView {
            url: self.url@,
            if_none_match: match &self.if_none_match {
                Some(v) => Some(v@),
                None => None,
            },
            authorization: match &self.authorization {
                Some(v) => Some(v@),
                None => None,
            },
            accept: match &self.accept {
                Some(v) => Some(v@),
                None => None,
            },
        }
    }
}

/// Abstract value of a `TransportEvent`.
pub enum TransportEventView {
    Response { status: u16, headers: Seq<(Seq<u8>, Seq<u8>)>, body: Seq<u8> },
    Transient { detail: Seq<u8> },
    Failed { detail: Seq<u8> },
}

/// What one request attempt produced: a response with its raw headers, a
/// connect/timeout-class error worth one retry, or a hard transport error.
pub enum TransportEvent {
    Response { status: u16, headers: Vec<(Vec<u8>, Vec<u8>)>, body: Vec<u8> },
    Transient { detail: Vec<u8> },
    Failed { detail: Vec<u8> },
}

impl View for TransportEvent {
    type V = TransportEventView;

    open spec fn view(&self) -> TransportEventView {
        match self {
            TransportEvent::Response { status, headers, body } => TransportEventView::Response {
                status: *status,
                headers: headers@.map_values(|p: (Vec<u8>, Vec<u8>)| (p.0@, p.1@)),
                body: body@,
            },
            TransportEvent::Transient { detail } => TransportEventView::Transient {
                detail: detail@,
            },
            TransportEvent::Failed { detail } => TransportEventView::Failed { detail: detail@ },
        }
    }
}

/// One folding step: lower-case the name; a repeated name joins values with
/// a comma.
pub open spec fn raw_step(
    m: Map<Seq<u8>, Seq<u8>>,
    name: Seq<u8>,
    value: Seq<u8>,
) -> Map<Seq<u8>, Seq<u8>> {
    let k = lower_bytes(name);
    if m.contains_key(k) {
        m.insert(k, m[k] + seq![COMMA] + value)
    } else {
        m.insert(k, value)
    }
}

/// Fold raw response headers, in order, from position `i`.
pub open spec fn raw_fold(
    m: Map<Seq<u8>, Seq<u8>>,
    pairs: Seq<(Seq<u8>, Seq<u8>)>,
    i: int,
) -> Map<Seq<u8>, Seq<u8>>
    decreases pairs.len() - i,
{
    if !(0 <= i < pairs.len()) {
        m
    } else {
        raw_fold(raw_step(m, pairs[i].0, pairs[i].1), pairs, i + 1)
    }
}

/// The header map raw response headers denote.
pub open spec fn headers_of_raw(pairs: Seq<(Seq<u8>, Seq<u8>)>) -> Map<Seq<u8>, Seq<u8>> {
    raw_fold(Map::empty(), pairs, 0)
}

/// Build the header map for raw response headers: names lower-cased,
/// repeated names joined with a comma, in order.
pub fn headers_from_raw(raw: &Vec<(Vec<u8>, Vec<u8>)>) -> (r: Headers)
    ensures
        r.wf(),
        r@ == headers_of_raw(raw@.map_values(|p: (Vec<u8>, Vec<u8>)| (p.0@, p.1@))),
{
    let ghost pv = raw@.map_values(|p: (Vec<u8>, Vec<u8>)| (p.0@, p.1@));
    let mut h = Headers::new();
    let mut i: usize = 0;
    while i < raw.len()
        invariant
            0 <= i <= raw@.len(),
            pv == raw@.map_values(|p: (Vec<u8>, Vec<u8>)| (p.0@, p.1@)),
            h.wf(),
            headers_of_raw(pv) == raw_fold(h@, pv, i as int),
        decreases raw@.len() - i,
    {
        let low = to_lower_bytes(&raw[i].0);
        let value = clone_bytes(&raw[i].1);
        let ghost pre = h@;
        match h.get(&low) {
            Some(old_v) => {
                let mut joined = clone_bytes(old_v);
                joined.push(COMMA);
                let mut k: usize = 0;
                while k < value.len()
                    invariant
                        0 <= k <= value@.len(),
                        joined@ == pre[low@] + seq![COMMA] + value@.subrange(0, k as int),
                    decreases value@.len() - k,
                {
                    joined.push(value[k]);
                    proof {
                        assert(joined@ =~= pre[low@] + seq![COMMA] + value@.subrange(0, k + 1));
                    }
                    k = k + 1;
                }
                proof {
                    assert(value@.subrange(0, value@.len() as int) =~= value@);
                    assert(joined@ =~= pre[low@] + seq![COMMA] + value@);
                }
                h.insert(&low, joined);
            },
            None => {
                h.insert(&low, value);
            },
        }
        proof {
            assert(low@ == lower_bytes(pv[i as int].0));
            assert(h@ == raw_step(pre, pv[i as int].0, pv[i as int].1));
        }
        i = i + 1;
    }
    h
}

} // verus!
