//! Laws of the fetch machine, proved over its transition functions.
//!
//! Each lemma here states a behaviour of the machine as a whole — across
//! several transitions, for every cache state and every input the law
//! admits — and is proved from the transition specifications alone.

use vstd::prelude::*;
use vstd::string::StringSliceAdditionalSpecFns;

use crate::cache_settings::{pop_path, reload_hit, reload_uses_cache, CacheSettingView};
use crate::errors::FetchErrorView;
use crate::file_fetcher::{cached_lookup, fetch_access_spec, fetch_backoff_spec,
    fetch_response_spec, fetch_start_spec, request_of, FetcherView, FileView, FlowPhase, FlowView,
    StepView};
use crate::ident::{scheme_class_of, Scheme};
use crate::transport::{headers_of_raw, TransportEventView};

verus! {

/// Once a remote fetch has completed, fetching the same identity again is
/// served from the memory cache: the very first access decision returns the
/// identical artifact, and no request step is ever produced.
pub proof fn lemma_second_fetch_uses_memory(
    fv: FetcherView,
    flow: FlowView,
    ev: TransportEventView,
    accept2: Option<Seq<u8>>,
    setting2: Option<CacheSettingView>,
    now2: int,
)
    requires
        scheme_class_of(flow.requested) != Scheme::Other,
        fetch_response_spec(fv, flow, ev).1 is Done,
    ensures
        ({
            let fv2 = fetch_response_spec(fv, flow, ev).0;
            let st = fetch_start_spec(fv2, flow.requested, accept2, setting2);
            &&& st is CheckAccess
            &&& fetch_access_spec(fv2, st->CheckAccess_0, None, now2).1 == fetch_response_spec(
                fv,
                flow,
                ev,
            ).1
            &&& fetch_access_spec(fv2, st->CheckAccess_0, None, now2).0 == fv2
        }),
{
    let fv2 = fetch_response_spec(fv, flow, ev).0;
    assert(fv2.mem.contains_key(flow.requested));
}

/// A disallowed scheme always fails with `UnsupportedScheme`, whatever the
/// caches hold and whatever options are given.
pub proof fn lemma_unsupported_scheme_always_fails(
    fv: FetcherView,
    specifier: Seq<u8>,
    accept: Option<Seq<u8>>,
    setting: Option<CacheSettingView>,
)
    requires
        scheme_class_of(specifier) == Scheme::Other,
    ensures
        fetch_start_spec(fv, specifier, accept, setting) == StepView::Failed(
            FetchErrorView::UnsupportedScheme { scheme: crate::ident::scheme_seq_of(specifier) },
        ),
{
}

/// With the cache-only setting and nothing cached for the identity, the
/// remote hop fails with `NotCached` before any request is made.
pub proof fn lemma_cache_only_miss_fails(fv: FetcherView, flow: FlowView)
    requires
        flow.phase == FlowPhase::Remote,
        flow.setting is Only,
        flow.counter >= 0,
        !fv.disk.contains_key(flow.current),
    ensures
        fetch_access_spec(fv, flow, None, flow.now).1 == StepView::Failed(
            FetchErrorView::NotCached { specifier: flow.current },
        ),
        fetch_access_spec(fv, flow, None, flow.now).0 == fv,
{
}

/// With the cache-only setting and a complete cached entry, the remote hop
/// is served from the disk cache: no request step, and the artifact is the
/// cached one.  Complete means the entry carries no location header: one
/// that does is cached redirect metadata, which the lookup follows
/// instead.
pub proof fn lemma_cache_only_served_offline(fv: FetcherView, flow: FlowView)
    requires
        flow.phase == FlowPhase::Remote,
        flow.setting is Only,
        flow.counter >= 0,
        fv.disk.contains_key(flow.current),
        !fv.disk[flow.current].headers.contains_key(("location").spec_bytes()),
    ensures
        fetch_access_spec(fv, flow, None, flow.now).1 == StepView::Done(
            FileView {
                specifier: flow.current,
                maybe_headers: Some(fv.disk[flow.current].headers),
                source: fv.disk[flow.current].body,
            },
        ),
{
}

/// A successful direct (redirect-free) remote fetch leaves a complete disk
/// entry under the identity, so a later cache-only fetch of it succeeds
/// offline with the same bytes.  The success response must carry no
/// location header: a response that does would be stored as redirect
/// metadata and read back as one.
pub proof fn lemma_use_then_cache_only(
    fv: FetcherView,
    flow: FlowView,
    status: u16,
    raw: Seq<(Seq<u8>, Seq<u8>)>,
    body: Seq<u8>,
    flow2: FlowView,
)
    requires
        200 <= status <= 299,
        status != 304,
        !headers_of_raw(raw).contains_key(("location").spec_bytes()),
        flow2.phase == FlowPhase::Remote,
        flow2.setting is Only,
        flow2.counter >= 0,
        flow2.current == flow.current,
    ensures
        ({
            let fv2 = fetch_response_spec(
                fv,
                flow,
                TransportEventView::Response { status, headers: raw, body },
            ).0;
            fetch_access_spec(fv2, flow2, None, flow2.now).1 == StepView::Done(
                FileView {
                    specifier: flow.current,
                    maybe_headers: Some(headers_of_raw(raw)),
                    source: body,
                },
            )
        }),
{
    let fv2 = fetch_response_spec(
        fv,
        flow,
        TransportEventView::Response { status, headers: raw, body },
    ).0;
    assert(fv2.disk.contains_key(flow.current));
    lemma_cache_only_served_offline(fv2, flow2);
}

/// Under `ReloadSome`, a listed identity is refetched even when cached:
/// the remote hop always produces a request step.
pub proof fn lemma_reload_some_refetches(fv: FetcherView, flow: FlowView, list: Seq<Seq<u8>>)
    requires
        flow.phase == FlowPhase::Remote,
        flow.setting == CacheSettingView::ReloadSome(list),
        !reload_uses_cache(list, flow.current),
    ensures
        fetch_access_spec(fv, flow, None, flow.now).1 == StepView::SendRequest(
            request_of(fv, flow),
            flow,
        ),
        fetch_access_spec(fv, flow, None, flow.now).0 == fv,
{
}

/// Under `ReloadSome`, an unlisted identity with a complete cached entry is
/// served from the cache: no request step.  As above, complete means no
/// location header, which would make the entry cached redirect metadata.
pub proof fn lemma_reload_some_spares_others(fv: FetcherView, flow: FlowView, list: Seq<Seq<u8>>)
    requires
        flow.phase == FlowPhase::Remote,
        flow.setting == CacheSettingView::ReloadSome(list),
        reload_uses_cache(list, flow.current),
        flow.counter >= 0,
        fv.disk.contains_key(flow.current),
        !fv.disk[flow.current].headers.contains_key(("location").spec_bytes()),
    ensures
        fetch_access_spec(fv, flow, None, flow.now).1 == StepView::Done(
            FileView {
                specifier: flow.current,
                maybe_headers: Some(fv.disk[flow.current].headers),
                source: fv.disk[flow.current].body,
            },
        ),
{
}

/// Being listed is inherited downward: when a path-prefix truncation of a
/// text is matched by the list, the text itself is matched.
pub proof fn lemma_reload_hit_ancestor(list: Seq<Seq<u8>>, s: Seq<u8>, t: Seq<u8>)
    requires
        pop_path(s) == Some(t),
        reload_hit(list, t),
    ensures
        reload_hit(list, s),
{
    crate::cache_settings::lemma_pop_path_len(s);
}

/// A transient transport error followed by a success on the retry yields
/// the artifact as if the first attempt had succeeded, with the same
/// request being re-issued in between.
pub proof fn lemma_transient_then_success(
    fv: FetcherView,
    flow: FlowView,
    detail: Seq<u8>,
    status: u16,
    raw: Seq<(Seq<u8>, Seq<u8>)>,
    body: Seq<u8>,
)
    requires
        !flow.retried,
        200 <= status <= 299,
        status != 304,
    ensures
        ({
            let (fv1, st1) = fetch_response_spec(
                fv,
                flow,
                TransportEventView::Transient { detail },
            );
            &&& fv1 == fv
            &&& st1 matches StepView::Backoff(ms, flow1) && ms == 50 && fetch_backoff_spec(
                fv1,
                flow1,
            ) == StepView::SendRequest(request_of(fv, flow), flow1) && fetch_response_spec(
                fv1,
                flow1,
                TransportEventView::Response { status, headers: raw, body },
            ).1 == StepView::Done(
                FileView {
                    specifier: flow.current,
                    maybe_headers: Some(headers_of_raw(raw)),
                    source: body,
                },
            )
        }),
{
}

/// Two transient transport errors in a row fail hard with
/// `TransportFailure`, and the machine never retries a hop twice.
pub proof fn lemma_two_transients_fail(
    fv: FetcherView,
    flow: FlowView,
    detail1: Seq<u8>,
    detail2: Seq<u8>,
)
    requires
        !flow.retried,
    ensures
        ({
            let (fv1, st1) = fetch_response_spec(
                fv,
                flow,
                TransportEventView::Transient { detail: detail1 },
            );
            &&& st1 matches StepView::Backoff(ms, flow1) && fetch_response_spec(
                fv1,
                flow1,
                TransportEventView::Transient { detail: detail2 },
            ).1 == StepView::Failed(
                FetchErrorView::TransportFailure { specifier: flow.current, detail: detail2 },
            )
        }),
{
}

} // verus!

verus! {

/// The shape of a redirect chain: each response's folded headers carry a
/// location that resolves to the next URL.
pub open spec fn chain_joins(
    flow: FlowView,
    raws: Seq<Seq<(Seq<u8>, Seq<u8>)>>,
    urls: Seq<Seq<u8>>,
) -> bool {
    &&& urls.len() == raws.len() + 1
    &&& flow.phase == FlowPhase::Remote
    &&& flow.current == urls[0]
    &&& forall|i: int|
        0 <= i < raws.len() ==> headers_of_raw(#[trigger] raws[i]).contains_key(
            ("location").spec_bytes(),
        )
    &&& forall|i: int|
        0 <= i < raws.len() ==> crate::ident::url_join_of(
            urls[i],
            headers_of_raw(#[trigger] raws[i])[("location").spec_bytes()],
        ) == Some(urls[i + 1])
}

/// A redirect chain the machine takes to the network at every hop: the
/// URLs are pairwise distinct, none past the first is already cached, and
/// the policy is not cache-only.  The extra conditions are what makes it a
/// chain of transport responses at all: a revisited or pre-cached hop is
/// answered from the cache instead of the network, and under the
/// cache-only policy no request is ever made.
pub open spec fn chain_wf(
    fv: FetcherView,
    flow: FlowView,
    raws: Seq<Seq<(Seq<u8>, Seq<u8>)>>,
    urls: Seq<Seq<u8>>,
) -> bool {
    &&& chain_joins(flow, raws, urls)
    &&& !(flow.setting is Only)
    &&& forall|i: int, j: int| 0 <= i < j < urls.len() ==> urls[i] != urls[j]
    &&& forall|i: int| 1 <= i < urls.len() ==> !fv.disk.contains_key(#[trigger] urls[i])
}

/// Drive the machine through a sequence of redirect responses: each one is
/// answered to the pending request, the resulting access check is granted,
/// and the run stops at the next request step or at a failure.
pub open spec fn run_redirect_chain(
    fv: FetcherView,
    flow: FlowView,
    raws: Seq<Seq<(Seq<u8>, Seq<u8>)>>,
) -> (FetcherView, StepView)
    decreases raws.len(),
{
    if raws.len() == 0 {
        (fv, StepView::SendRequest(request_of(fv, flow), flow))
    } else {
        let ev = TransportEventView::Response {
            status: 302,
            headers: raws[0],
            body: Seq::empty(),
        };
        let (fv1, st1) = fetch_response_spec(fv, flow, ev);
        match st1 {
            StepView::CheckAccess(fl1) => {
                let (fv2, st2) = fetch_access_spec(fv1, fl1, None, fl1.now);
                match st2 {
                    StepView::SendRequest(rq, fl2) => run_redirect_chain(
                        fv2,
                        fl2,
                        raws.drop_first(),
                    ),
                    _ => (fv2, st2),
                }
            },
            _ => (fv1, st1),
        }
    }
}

/// A chain of redirects within the counter ends at a request for the final
/// URL, with a redirect-metadata entry persisted for every hop and nothing
/// else disturbed; a chain past the counter fails with `TooManyRedirects`.
pub proof fn lemma_redirect_chain(
    fv: FetcherView,
    flow: FlowView,
    raws: Seq<Seq<(Seq<u8>, Seq<u8>)>>,
    urls: Seq<Seq<u8>>,
)
    requires
        chain_wf(fv, flow, raws, urls),
        0 <= flow.counter,
    ensures
        ({
            let (fv2, st) = run_redirect_chain(fv, flow, raws);
            &&& fv2.mem == fv.mem
            &&& fv2.blobs == fv.blobs
            &&& fv2.auth == fv.auth
            &&& fv2.allow_remote == fv.allow_remote
            &&& fv2.setting == fv.setting
            &&& (raws.len() > flow.counter ==> st == StepView::Failed(
                FetchErrorView::TooManyRedirects,
            ))
            &&& (raws.len() <= flow.counter ==> {
                &&& st is SendRequest
                &&& st->SendRequest_1.current == urls[raws.len() as int]
                &&& st->SendRequest_1.counter == flow.counter - raws.len()
                &&& st->SendRequest_1.requested == flow.requested
                &&& st->SendRequest_1.setting == flow.setting
                &&& st->SendRequest_1.accept == flow.accept
                &&& st->SendRequest_1.now == flow.now
                &&& st->SendRequest_1.phase == FlowPhase::Remote
                &&& st->SendRequest_0 == request_of(fv2, st->SendRequest_1)
                &&& forall|i: int|
                    0 <= i < raws.len() ==> fv2.disk.contains_key(#[trigger] urls[i])
                        && fv2.disk[urls[i]].headers == headers_of_raw(raws[i])
                        && fv2.disk[urls[i]].body == Seq::<u8>::empty()
                &&& forall|k: Seq<u8>|
                    #[trigger] fv2.disk.contains_key(k) ==> fv.disk.contains_key(k) || exists|
                        i: int,
                    | 0 <= i < raws.len() && urls[i] == k
                &&& forall|k: Seq<u8>|
                    fv.disk.contains_key(k) && !(exists|i: int|
                        0 <= i < raws.len() && urls[i] == k) ==> #[trigger] fv2.disk.contains_key(
                        k,
                    ) && fv2.disk[k] == fv.disk[k]
            })
        }),
    decreases raws.len(),
{
    if raws.len() == 0 {
    } else {
        let ev = TransportEventView::Response {
            status: 302,
            headers: raws[0],
            body: Seq::empty(),
        };
        let h = headers_of_raw(raws[0]);
        assert(h.contains_key(("location").spec_bytes()));
        assert(crate::ident::url_join_of(urls[0], h[("location").spec_bytes()]) == Some(urls[1]));
        let (fv1, st1) = fetch_response_spec(fv, flow, ev);
        assert(fv1.disk == fv.disk.insert(
            urls[0],
            crate::http_cache::CacheEntryView {
                headers: h,
                time: flow.now,
                body: Seq::<u8>::empty(),
            },
        ));
        if flow.counter < 1 {
            assert(st1 == StepView::Failed(FetchErrorView::TooManyRedirects));
        } else {
            let fl1 = st1->CheckAccess_0;
            assert(fl1.current == urls[1]);
            assert(fl1.counter == flow.counter - 1);
            let (fv2m, st2) = fetch_access_spec(fv1, fl1, None, fl1.now);
            assert(urls[1] != urls[0]);
            assert(!fv1.disk.contains_key(urls[1]));
            assert(cached_lookup(fv1.disk, fl1.current, fl1.counter) is Miss);
            assert(fv2m == fv1);
            assert(st2 == StepView::SendRequest(request_of(fv1, fl1), fl1));
            let raws1 = raws.drop_first();
            let urls1 = urls.drop_first();
            assert(chain_wf(fv1, fl1, raws1, urls1)) by {
                assert(urls1[0] == urls[1]);
                assert forall|i: int|
                    0 <= i < raws1.len() implies headers_of_raw(#[trigger] raws1[i]).contains_key(
                        ("location").spec_bytes(),
                    ) by {
                    assert(raws1[i] == raws[i + 1]);
                }
                assert forall|i: int|
                    0 <= i < raws1.len() implies crate::ident::url_join_of(
                        urls1[i],
                        headers_of_raw(#[trigger] raws1[i])[("location").spec_bytes()],
                    ) == Some(urls1[i + 1]) by {
                    assert(raws1[i] == raws[i + 1]);
                    assert(urls1[i] == urls[i + 1]);
                    assert(urls1[i + 1] == urls[i + 2]);
                }
                assert forall|i: int, j: int| 0 <= i < j < urls1.len() implies urls1[i] != urls1[j]
                by {
                    assert(urls1[i] == urls[i + 1]);
                    assert(urls1[j] == urls[j + 1]);
                }
                assert forall|i: int| 1 <= i < urls1.len() implies !fv1.disk.contains_key(
                    #[trigger] urls1[i],
                ) by {
                    assert(urls1[i] == urls[i + 1]);
                    assert(urls[i + 1] != urls[0]);
                }
            }
            lemma_redirect_chain(fv1, fl1, raws1, urls1);
            let (fv2, st) = run_redirect_chain(fv1, fl1, raws1);
            assert(run_redirect_chain(fv, flow, raws) == (fv2, st));
            if raws.len() <= flow.counter {
                assert(raws1.len() <= fl1.counter);
                assert(st->SendRequest_1.current == urls1[raws1.len() as int]);
                assert(urls1[raws1.len() as int] == urls[raws.len() as int]);
                assert forall|i: int|
                    0 <= i < raws.len() implies fv2.disk.contains_key(#[trigger] urls[i])
                        && fv2.disk[urls[i]].headers == headers_of_raw(raws[i])
                        && fv2.disk[urls[i]].body == Seq::<u8>::empty() by {
                    if i == 0 {
                        assert(fv1.disk.contains_key(urls[0]));
                        assert(!(exists|j: int| 0 <= j < raws1.len() && urls1[j] == urls[0]))
                            by {
                            if exists|j: int| 0 <= j < raws1.len() && urls1[j] == urls[0] {
                                let j = choose|j: int|
                                    0 <= j < raws1.len() && urls1[j] == urls[0];
                                assert(urls[j + 1] == urls[0]);
                            }
                        }
                        assert(fv2.disk.contains_key(urls[0]) && fv2.disk[urls[0]]
                            == fv1.disk[urls[0]]);
                    } else {
                        assert(urls1[i - 1] == urls[i]);
                        assert(raws1[i - 1] == raws[i]);
                        assert(fv2.disk.contains_key(urls1[i - 1]));
                    }
                }
                assert forall|k: Seq<u8>| #[trigger] fv2.disk.contains_key(k) implies
                    fv.disk.contains_key(k) || exists|i: int|
                        0 <= i < raws.len() && urls[i] == k by {
                    if !fv.disk.contains_key(k) {
                        if fv1.disk.contains_key(k) && !(exists|j: int|
                            0 <= j < raws1.len() && urls1[j] == k)  {
                            assert(k == urls[0]);
                            assert(0 <= 0 < raws.len() && urls[0] == k);
                        } else {
                            if exists|j: int| 0 <= j < raws1.len() && urls1[j] == k {
                                let j = choose|j: int| 0 <= j < raws1.len() && urls1[j] == k;
                                assert(urls[j + 1] == k);
                                assert(0 <= j + 1 < raws.len() && urls[j + 1] == k);
                            } else {
                                if k == urls[0] {
                                    assert(0 <= 0 < raws.len() && urls[0] == k);
                                }
                            }
                        }
                    }
                }
                assert forall|k: Seq<u8>|
                    fv.disk.contains_key(k) && !(exists|i: int|
                        0 <= i < raws.len() && urls[i] == k) implies
                    #[trigger] fv2.disk.contains_key(k) && fv2.disk[k] == fv.disk[k] by {
                    assert(k != urls[0]);
                    assert(fv1.disk.contains_key(k) && fv1.disk[k] == fv.disk[k]);
                    assert(!(exists|j: int| 0 <= j < raws1.len() && urls1[j] == k)) by {
                        if exists|j: int| 0 <= j < raws1.len() && urls1[j] == k {
                            let j = choose|j: int| 0 <= j < raws1.len() && urls1[j] == k;
                            assert(urls[j + 1] == k);
                        }
                    }
                }
            }
        }
    }
}

} // verus!

verus! {

/// A redirect chain within the counter, answered at its final URL with a
/// success, yields an artifact whose bytes are the origin's body and whose
/// identity is the final URL, while the disk cache holds a redirect entry
/// for every intermediate hop.
pub proof fn lemma_redirect_chain_success(
    fv: FetcherView,
    flow: FlowView,
    raws: Seq<Seq<(Seq<u8>, Seq<u8>)>>,
    urls: Seq<Seq<u8>>,
    status: u16,
    final_raw: Seq<(Seq<u8>, Seq<u8>)>,
    body: Seq<u8>,
)
    requires
        chain_wf(fv, flow, raws, urls),
        0 <= raws.len() <= flow.counter,
        200 <= status <= 299,
        status != 304,
    ensures
        ({
            let (fv2, st) = run_redirect_chain(fv, flow, raws);
            let (fv3, st3) = fetch_response_spec(
                fv2,
                st->SendRequest_1,
                TransportEventView::Response { status, headers: final_raw, body },
            );
            &&& st3 == StepView::Done(
                FileView {
                    specifier: urls[raws.len() as int],
                    maybe_headers: Some(headers_of_raw(final_raw)),
                    source: body,
                },
            )
            &&& forall|i: int|
                0 <= i < raws.len() ==> fv3.disk.contains_key(#[trigger] urls[i])
                    && fv3.disk[urls[i]].headers == headers_of_raw(raws[i])
                    && fv3.disk[urls[i]].body == Seq::<u8>::empty()
            &&& fv3.mem.contains_key(flow.requested) && fv3.mem[flow.requested] == (FileView {
                specifier: urls[raws.len() as int],
                maybe_headers: Some(headers_of_raw(final_raw)),
                source: body,
            })
        }),
{
    lemma_redirect_chain(fv, flow, raws, urls);
    let (fv2, st) = run_redirect_chain(fv, flow, raws);
    let fl = st->SendRequest_1;
    let (fv3, st3) = fetch_response_spec(
        fv2,
        fl,
        TransportEventView::Response { status, headers: final_raw, body },
    );
    assert forall|i: int|
        0 <= i < raws.len() implies fv3.disk.contains_key(#[trigger] urls[i])
            && fv3.disk[urls[i]].headers == headers_of_raw(raws[i]) && fv3.disk[urls[i]].body
            == Seq::<u8>::empty() by {
        assert(fv2.disk.contains_key(urls[i]));
        assert(urls[i] != urls[raws.len() as int]);
    }
}

/// The redirect counter starts at ten: a chain of exactly ten redirects
/// still reaches its final URL, while an eleventh redirect fails with
/// `TooManyRedirects`.
pub proof fn lemma_redirect_limit_is_ten(
    fv: FetcherView,
    flow: FlowView,
    raws: Seq<Seq<(Seq<u8>, Seq<u8>)>>,
    urls: Seq<Seq<u8>>,
)
    requires
        chain_wf(fv, flow, raws, urls),
        flow.counter == 10,
    ensures
        raws.len() == 10 ==> run_redirect_chain(fv, flow, raws).1 is SendRequest
            && run_redirect_chain(fv, flow, raws).1->SendRequest_1.current == urls[10],
        raws.len() == 11 ==> run_redirect_chain(fv, flow, raws).1 == StepView::Failed(
            FetchErrorView::TooManyRedirects,
        ),
{
    lemma_redirect_chain(fv, flow, raws, urls);
}

} // verus!

verus! {

/// With the reload-everything policy the cache never answers, so the chain
/// laws need no distinctness or uncached-state hypotheses at all: any
/// chain within the counter ends at a request for its final URL with every
/// hop persisted, and any chain past the counter fails with
/// `TooManyRedirects`.
pub proof fn lemma_redirect_chain_reload_all(
    fv: FetcherView,
    flow: FlowView,
    raws: Seq<Seq<(Seq<u8>, Seq<u8>)>>,
    urls: Seq<Seq<u8>>,
)
    requires
        chain_joins(flow, raws, urls),
        flow.setting is ReloadAll,
        0 <= flow.counter,
    ensures
        ({
            let (fv2, st) = run_redirect_chain(fv, flow, raws);
            &&& fv2.mem == fv.mem
            &&& fv2.blobs == fv.blobs
            &&& fv2.auth == fv.auth
            &&& fv2.allow_remote == fv.allow_remote
            &&& fv2.setting == fv.setting
            &&& forall|k: Seq<u8>|
                fv.disk.contains_key(k) ==> #[trigger] fv2.disk.contains_key(k)
            &&& (raws.len() > flow.counter ==> st == StepView::Failed(
                FetchErrorView::TooManyRedirects,
            ))
            &&& (raws.len() <= flow.counter ==> {
                &&& st is SendRequest
                &&& st->SendRequest_1.current == urls[raws.len() as int]
                &&& st->SendRequest_1.counter == flow.counter - raws.len()
                &&& st->SendRequest_1.requested == flow.requested
                &&& st->SendRequest_1.setting == flow.setting
                &&& st->SendRequest_1.accept == flow.accept
                &&& st->SendRequest_1.now == flow.now
                &&& st->SendRequest_1.phase == FlowPhase::Remote
                &&& st->SendRequest_0 == request_of(fv2, st->SendRequest_1)
                &&& forall|i: int|
                    0 <= i < raws.len() ==> fv2.disk.contains_key(#[trigger] urls[i])
            })
        }),
    decreases raws.len(),
{
    if raws.len() == 0 {
    } else {
        let ev = TransportEventView::Response {
            status: 302,
            headers: raws[0],
            body: Seq::empty(),
        };
        let h = headers_of_raw(raws[0]);
        assert(h.contains_key(("location").spec_bytes()));
        assert(crate::ident::url_join_of(urls[0], h[("location").spec_bytes()]) == Some(urls[1]));
        let (fv1, st1) = fetch_response_spec(fv, flow, ev);
        assert(fv1.disk == fv.disk.insert(
            urls[0],
            crate::http_cache::CacheEntryView {
                headers: h,
                time: flow.now,
                body: Seq::<u8>::empty(),
            },
        ));
        if flow.counter < 1 {
            assert(st1 == StepView::Failed(FetchErrorView::TooManyRedirects));
        } else {
            let fl1 = st1->CheckAccess_0;
            let (fv2m, st2) = fetch_access_spec(fv1, fl1, None, fl1.now);
            assert(fv2m == fv1);
            assert(st2 == StepView::SendRequest(request_of(fv1, fl1), fl1));
            let raws1 = raws.drop_first();
            let urls1 = urls.drop_first();
            assert(chain_joins(fl1, raws1, urls1)) by {
                assert(urls1[0] == urls[1]);
                assert forall|i: int|
                    0 <= i < raws1.len() implies headers_of_raw(#[trigger] raws1[i]).contains_key(
                        ("location").spec_bytes(),
                    ) by {
                    assert(raws1[i] == raws[i + 1]);
                }
                assert forall|i: int|
                    0 <= i < raws1.len() implies crate::ident::url_join_of(
                        urls1[i],
                        headers_of_raw(#[trigger] raws1[i])[("location").spec_bytes()],
                    ) == Some(urls1[i + 1]) by {
                    assert(raws1[i] == raws[i + 1]);
                    assert(urls1[i] == urls[i + 1]);
                    assert(urls1[i + 1] == urls[i + 2]);
                }
            }
            lemma_redirect_chain_reload_all(fv1, fl1, raws1, urls1);
            let (fv2, st) = run_redirect_chain(fv1, fl1, raws1);
            assert(run_redirect_chain(fv, flow, raws) == (fv2, st));
            assert(fv1.disk.contains_key(urls[0]));
            if raws.len() <= flow.counter {
                assert(raws1.len() <= fl1.counter);
                assert(st->SendRequest_1.current == urls1[raws1.len() as int]);
                assert(urls1[raws1.len() as int] == urls[raws.len() as int]);
                assert forall|i: int|
                    0 <= i < raws.len() implies fv2.disk.contains_key(#[trigger] urls[i]) by {
                    if i == 0 {
                        assert(fv2.disk.contains_key(urls[0]));
                    } else {
                        assert(urls1[i - 1] == urls[i]);
                        assert(fv2.disk.contains_key(urls1[i - 1]));
                    }
                }
            }
        }
    }
}

} // verus!

verus! {

/// Under the reload-everything policy, any redirect chain within the
/// counter answered at its final URL with a success yields the origin body
/// under the final URL's identity — no distinctness or uncached-state
/// hypotheses — and every hop remains persisted.
pub proof fn lemma_redirect_chain_reload_all_success(
    fv: FetcherView,
    flow: FlowView,
    raws: Seq<Seq<(Seq<u8>, Seq<u8>)>>,
    urls: Seq<Seq<u8>>,
    status: u16,
    final_raw: Seq<(Seq<u8>, Seq<u8>)>,
    body: Seq<u8>,
)
    requires
        chain_joins(flow, raws, urls),
        flow.setting is ReloadAll,
        0 <= raws.len() <= flow.counter,
        200 <= status <= 299,
        status != 304,
    ensures
        ({
            let (fv2, st) = run_redirect_chain(fv, flow, raws);
            let (fv3, st3) = fetch_response_spec(
                fv2,
                st->SendRequest_1,
                TransportEventView::Response { status, headers: final_raw, body },
            );
            &&& st3 == StepView::Done(
                FileView {
                    specifier: urls[raws.len() as int],
                    maybe_headers: Some(headers_of_raw(final_raw)),
                    source: body,
                },
            )
            &&& forall|i: int| 0 <= i < raws.len() ==> fv3.disk.contains_key(#[trigger] urls[i])
            &&& fv3.mem.contains_key(flow.requested) && fv3.mem[flow.requested] == (FileView {
                specifier: urls[raws.len() as int],
                maybe_headers: Some(headers_of_raw(final_raw)),
                source: body,
            })
        }),
{
    lemma_redirect_chain_reload_all(fv, flow, raws, urls);
}

} // verus!
