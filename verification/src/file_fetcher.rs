//! The fetcher: scheme dispatch, caches, redirects and retry, as an
//! explicit step machine.
//!
//! Every operation that needs the outside world — the access policy, a
//! filesystem read, one HTTP request, a retry backoff — is surfaced as a
//! `FetchStep`; the driver performs it and hands the result back to the
//! matching `fetch_*` method together with the flow state it was given.
//! Everything between two steps is decided here, against the in-process
//! caches, and each transition's contract pins the decision down.

use vstd::prelude::*;
use vstd::string::StringSliceAdditionalSpecFns;

use crate::assoc::{akeys_unique, amap_of, lemma_akeys_unique_push, lemma_akeys_unique_remove,
    lemma_amap_of_contains, lemma_amap_of_index, lemma_amap_of_remove};
use crate::auth_tokens::{bearer_of, bearer_value, first_token_for, host_of, AuthTokens};
use crate::bytestr::{clone_bytes, str_to_bytes};
use crate::cache_settings::{freshness_of, is_fresh, reload_uses_cache, reload_uses_cache_exec,
    CacheSetting, CacheSettingView};
use crate::errors::{FetchError, FetchErrorView};
use crate::headers::Headers;
use crate::http_cache::{CacheEntryView, HttpCache};
use crate::ident::{scheme_class_of, Identity, Scheme};
use crate::inline_data::{data_url_body_of, data_url_mime_of, data_url_ok, parse_data_url};
use crate::transport::{headers_of_raw, headers_from_raw, RequestSpec, RequestSpecView,
    TransportEvent, TransportEventView};

verus! {

/// Abstract value of an artifact.
pub struct FileView {
    pub specifier: Seq<u8>,
    pub maybe_headers: Option<Map<Seq<u8>, Seq<u8>>>,
    pub source: Seq<u8>,
}

/// An immutable fetched artifact: final identity, optional response
/// headers, raw bytes.
pub struct File {
    /// The final identity: after redirects it differs from the requested
    /// one.
    pub specifier: Identity,
    pub maybe_headers: Option<Headers>,
    /// The source of the file.
    pub source: Vec<u8>,
}

impl View for File {
    type V = FileView;

    open spec fn view(&self) -> FileView {
        FileView {
            specifier: self.specifier@,
            maybe_headers: match &self.maybe_headers {
                Some(h) => Some(h@),
                None => None,
            },
            source: self.source@,
        }
    }
}

impl File {
    /// The header map, where the artifact has one, is well formed.
    pub open spec fn wf(&self) -> bool {
        match &self.maybe_headers {
            Some(h) => h.wf(),
            None => true,
        }
    }
}

impl Clone for File {
    fn clone(&self) -> (r: Self)
        ensures
            r@ == self@,
            r.wf() == self.wf(),
    {
        File {
            specifier: self.specifier.clone(),
            maybe_headers: match &self.maybe_headers {
                Some(h) => Some(h.clone()),
                None => None,
            },
            source: clone_bytes(&self.source),
        }
    }
}

/// Views of the memory-cache pairs.
pub open spec fn files_view(s: Seq<(Vec<u8>, File)>) -> Seq<(Seq<u8>, FileView)> {
    s.map_values(|p: (Vec<u8>, File)| (p.0@, p.1@))
}

/// In-process cache of fetched artifacts, keyed by requested identity.
pub struct FileCache {
    entries: Vec<(Vec<u8>, File)>,
}

impl View for FileCache {
    type V = Map<Seq<u8>, FileView>;

    closed spec fn view(&self) -> Map<Seq<u8>, FileView> {
        amap_of(files_view(self.entries@))
    }
}

impl FileCache {
    pub closed spec fn wf(&self) -> bool {
        akeys_unique(files_view(self.entries@)) && forall|i: int|
            0 <= i < self.entries@.len() ==> (#[trigger] self.entries@[i]).1.wf()
    }

    pub fn new() -> (r: FileCache)
        ensures
            r.wf(),
            r@ == Map::<Seq<u8>, FileView>::empty(),
    {
        FileCache { entries: Vec::new() }
    }

    fn position_of(&self, key: &Vec<u8>) -> (r: Option<usize>)
        ensures
            match r {
                Some(i) => i < self.entries@.len() && files_view(self.entries@)[i as int].0
                    == key@,
                None => forall|j: int|
                    0 <= j < self.entries@.len() ==> (#[trigger] files_view(self.entries@)[j]).0
                        != key@,
            },
    {
        let mut i: usize = 0;
        while i < self.entries.len()
            invariant
                0 <= i <= self.entries@.len(),
                forall|j: int| 0 <= j < i ==> (#[trigger] files_view(self.entries@)[j]).0 != key@,
            decreases self.entries@.len() - i,
        {
            if crate::bytestr::bytes_eq(&self.entries[i].0, key) {
                return Some(i);
            }
            i = i + 1;
        }
        None
    }

    /// A clone of the cached artifact for this identity, if any.
    pub fn get(&self, specifier: &Identity) -> (r: Option<File>)
        requires
            self.wf(),
        ensures
            match r {
                Some(f) => self@.contains_key(specifier@) && f@ == self@[specifier@] && f.wf(),
                None => !self@.contains_key(specifier@),
            },
    {
        match self.position_of(specifier.text()) {
            Some(i) => {
                proof {
                    lemma_amap_of_index(files_view(self.entries@), i as int);
                }
                Some(self.entries[i].1.clone())
            },
            None => {
                proof {
                    lemma_amap_of_contains(files_view(self.entries@), specifier@);
                }
                None
            },
        }
    }

    /// Insert an artifact under an identity, returning any prior one.
    pub fn insert(&mut self, specifier: &Identity, file: File) -> (r: Option<File>)
        requires
            old(self).wf(),
            file.wf(),
        ensures
            final(self).wf(),
            final(self)@ == old(self)@.insert(specifier@, file@),
            match r {
                Some(prior) => old(self)@.contains_key(specifier@) && prior@ == old(
                    self,
                )@[specifier@],
                None => !old(self)@.contains_key(specifier@),
            },
    {
        let ghost pairs0 = files_view(self.entries@);
        let pos = self.position_of(specifier.text());
        let mut prior: Option<File> = None;
        if let Some(i) = pos {
            proof {
                lemma_amap_of_index(pairs0, i as int);
                lemma_amap_of_remove(pairs0, i as int);
                lemma_akeys_unique_remove(pairs0, i as int);
            }
            let (_, old_file) = self.entries.remove(i);
            prior = Some(old_file);
            proof {
                assert(files_view(self.entries@) =~= pairs0.remove(i as int));
            }
        } else {
            proof {
                lemma_amap_of_contains(pairs0, specifier@);
            }
        }
        let ghost pairs1 = files_view(self.entries@);
        proof {
            assert forall|j: int| 0 <= j < pairs1.len() implies (#[trigger] pairs1[j]).0
                != specifier@ by {
                if pos is Some {
                    assert(pairs1[j] == pairs0.remove(pos->Some_0 as int)[j]);
                }
            }
        }
        let ghost fv = file@;
        let key = clone_bytes(specifier.text());
        self.entries.push((key, file));
        proof {
            let p = (specifier@, fv);
            assert(files_view(self.entries@) =~= pairs1.push(p));
            lemma_akeys_unique_push(pairs1, p);
            if pos is Some {
                assert(amap_of(pairs1) == old(self)@.remove(specifier@));
                assert(amap_of(pairs1).insert(p.0, p.1) =~= old(self)@.insert(p.0, p.1));
            }
            assert(final(self).wf()) by {
                assert forall|i: int| 0 <= i < self.entries@.len() implies (
                #[trigger] self.entries@[i]).1.wf() by {
                    if i < self.entries@.len() - 1 {
                        if pos is Some {
                            let ip = pos->Some_0 as int;
                            let i0 = if i < ip {
                                i
                            } else {
                                i + 1
                            };
                            assert(self.entries@[i] == old(self).entries@[i0]);
                        } else {
                            assert(self.entries@[i] == old(self).entries@[i]);
                        }
                    }
                }
            }
        }
        prior
    }
}

/// One registered blob: media type and bytes.
pub struct BlobEntry {
    pub media_type: Vec<u8>,
    pub bytes: Vec<u8>,
}

impl View for BlobEntry {
    type V = (Seq<u8>, Seq<u8>);

    open spec fn view(&self) -> (Seq<u8>, Seq<u8>) {
        (self.media_type@, self.bytes@)
    }
}

/// Views of the blob-store pairs.
pub open spec fn blobs_view(s: Seq<(Vec<u8>, BlobEntry)>) -> Seq<(Seq<u8>, (Seq<u8>, Seq<u8>))> {
    s.map_values(|p: (Vec<u8>, BlobEntry)| (p.0@, p.1@))
}

/// The in-memory blob registry, keyed by blob URL.
pub struct BlobStore {
    entries: Vec<(Vec<u8>, BlobEntry)>,
}

impl View for BlobStore {
    type V = Map<Seq<u8>, (Seq<u8>, Seq<u8>)>;

    closed spec fn view(&self) -> Map<Seq<u8>, (Seq<u8>, Seq<u8>)> {
        amap_of(blobs_view(self.entries@))
    }
}

impl BlobStore {
    pub closed spec fn wf(&self) -> bool {
        akeys_unique(blobs_view(self.entries@))
    }

    pub fn new() -> (r: BlobStore)
        ensures
            r.wf(),
            r@ == Map::<Seq<u8>, (Seq<u8>, Seq<u8>)>::empty(),
    {
        BlobStore { entries: Vec::new() }
    }

    fn position_of(&self, key: &Vec<u8>) -> (r: Option<usize>)
        ensures
            match r {
                Some(i) => i < self.entries@.len() && blobs_view(self.entries@)[i as int].0
                    == key@,
                None => forall|j: int|
                    0 <= j < self.entries@.len() ==> (#[trigger] blobs_view(self.entries@)[j]).0
                        != key@,
            },
    {
        let mut i: usize = 0;
        while i < self.entries.len()
            invariant
                0 <= i <= self.entries@.len(),
                forall|j: int| 0 <= j < i ==> (#[trigger] blobs_view(self.entries@)[j]).0 != key@,
            decreases self.entries@.len() - i,
        {
            if crate::bytestr::bytes_eq(&self.entries[i].0, key) {
                return Some(i);
            }
            i = i + 1;
        }
        None
    }

    /// The blob registered under this URL, if any.
    pub fn get_object_url(&self, specifier: &Identity) -> (r: Option<(Vec<u8>, Vec<u8>)>)
        requires
            self.wf(),
        ensures
            match r {
                Some(p) => self@.contains_key(specifier@) && (p.0@, p.1@) == self@[specifier@],
                None => !self@.contains_key(specifier@),
            },
    {
        match self.position_of(specifier.text()) {
            Some(i) => {
                proof {
                    lemma_amap_of_index(blobs_view(self.entries@), i as int);
                }
                Some(
                    (clone_bytes(&self.entries[i].1.media_type), clone_bytes(
                        &self.entries[i].1.bytes,
                    )),
                )
            },
            None => {
                proof {
                    lemma_amap_of_contains(blobs_view(self.entries@), specifier@);
                }
                None
            },
        }
    }

    /// Register a blob under a URL, replacing any prior one.
    pub fn insert_object_url(&mut self, specifier: &Identity, media_type: Vec<u8>, bytes: Vec<u8>)
        requires
            old(self).wf(),
        ensures
            final(self).wf(),
            final(self)@ == old(self)@.insert(specifier@, (media_type@, bytes@)),
    {
        let ghost pairs0 = blobs_view(self.entries@);
        let pos = self.position_of(specifier.text());
        if let Some(i) = pos {
            proof {
                lemma_amap_of_index(pairs0, i as int);
                lemma_amap_of_remove(pairs0, i as int);
                lemma_akeys_unique_remove(pairs0, i as int);
            }
            self.entries.remove(i);
            proof {
                assert(blobs_view(self.entries@) =~= pairs0.remove(i as int));
            }
        } else {
            proof {
                lemma_amap_of_contains(pairs0, specifier@);
            }
        }
        let ghost pairs1 = blobs_view(self.entries@);
        proof {
            assert forall|j: int| 0 <= j < pairs1.len() implies (#[trigger] pairs1[j]).0
                != specifier@ by {
                if pos is Some {
                    assert(pairs1[j] == pairs0.remove(pos->Some_0 as int)[j]);
                }
            }
        }
        let ghost mv = media_type@;
        let ghost bv = bytes@;
        let key = clone_bytes(specifier.text());
        self.entries.push((key, BlobEntry { media_type, bytes }));
        proof {
            let p = (specifier@, (mv, bv));
            assert(blobs_view(self.entries@) =~= pairs1.push(p));
            lemma_akeys_unique_push(pairs1, p);
            if pos is Some {
                assert(amap_of(pairs1) == old(self)@.remove(specifier@));
                assert(amap_of(pairs1).insert(p.0, p.1) =~= old(self)@.insert(p.0, p.1));
            }
        }
    }
}

} // verus!

verus! {

/// Option-of-bytes view.
pub open spec fn obytes(o: Option<Vec<u8>>) -> Option<Seq<u8>> {
    match o {
        Some(v) => Some(v@),
        None => None,
    }
}

fn clone_obytes(o: &Option<Vec<u8>>) -> (r: Option<Vec<u8>>)
    ensures
        obytes(r) == obytes(*o),
{
    match o {
        Some(v) => Some(clone_bytes(v)),
        None => None,
    }
}

/// Options for one fetch call.
pub struct FetchOptions {
    pub maybe_accept: Option<Vec<u8>>,
    pub maybe_cache_setting: Option<CacheSetting>,
}

/// Where a flow stands: initial scheme dispatch, or inside the remote
/// redirect loop.
#[derive(Clone, Copy, PartialEq, Eq, Structural, Debug)]
pub enum FlowPhase {
    Dispatch,
    Remote,
}

/// Abstract value of a flow.
pub struct FlowView {
    pub requested: Seq<u8>,
    pub current: Seq<u8>,
    pub counter: int,
    pub retried: bool,
    pub accept: Option<Seq<u8>>,
    pub setting: CacheSettingView,
    pub now: int,
    pub phase: FlowPhase,
}

/// The state of one fetch in progress, handed out with each step and back
/// with each event.
pub struct FetchFlow {
    requested: Identity,
    current: Identity,
    counter: i64,
    retried: bool,
    accept: Option<Vec<u8>>,
    setting: CacheSetting,
    now: u64,
    phase: FlowPhase,
}

impl FetchFlow {
    /// The identity this hop addresses.
    pub fn current(&self) -> (r: &Identity)
        ensures
            r@ == self@.current,
    {
        &self.current
    }

    /// The identity the fetch was asked for.
    pub fn requested(&self) -> (r: &Identity)
        ensures
            r@ == self@.requested,
    {
        &self.requested
    }
}

impl View for FetchFlow {
    type V = FlowView;

    closed spec fn view(&self) -> FlowView {
        FlowView {
            requested: self.requested@,
            current: self.current@,
            counter: self.counter as int,
            retried: self.retried,
            accept: obytes(self.accept),
            setting: self.setting@,
            now: self.now as int,
            phase: self.phase,
        }
    }
}

/// Abstract value of a step.
pub enum StepView {
    Done(FileView),
    Failed(FetchErrorView),
    ReadLocal(FlowView),
    CheckAccess(FlowView),
    SendRequest(RequestSpecView, FlowView),
    Backoff(int, FlowView),
}

/// What the driver must do next: return a result, read a local file, check
/// access policy, send one request, or sleep before a retry.
pub enum FetchStep {
    Done(File),
    Failed(FetchError),
    ReadLocal(FetchFlow),
    CheckAccess(FetchFlow),
    SendRequest(RequestSpec, FetchFlow),
    Backoff(u64, FetchFlow),
}

impl View for FetchStep {
    type V = StepView;

    open spec fn view(&self) -> StepView {
        match self {
            FetchStep::Done(f) => StepView::Done(f@),
            FetchStep::Failed(e) => StepView::Failed(e@),
            FetchStep::ReadLocal(fl) => StepView::ReadLocal(fl@),
            FetchStep::CheckAccess(fl) => StepView::CheckAccess(fl@),
            FetchStep::SendRequest(rq, fl) => StepView::SendRequest(rq@, fl@),
            FetchStep::Backoff(ms, fl) => StepView::Backoff(*ms as int, fl@),
        }
    }
}

/// Abstract value of the whole fetcher.
pub struct FetcherView {
    pub auth: Seq<(Seq<u8>, Seq<u8>)>,
    pub allow_remote: bool,
    pub mem: Map<Seq<u8>, FileView>,
    pub setting: CacheSettingView,
    pub disk: Map<Seq<u8>, CacheEntryView>,
    pub blobs: Map<Seq<u8>, (Seq<u8>, Seq<u8>)>,
}

/// What following cached entries (through redirect metadata) finds.
pub enum CachedLookup {
    Miss,
    TooMany,
    Invalid { at: Seq<u8> },
    Hit { specifier: Seq<u8>, headers: Map<Seq<u8>, Seq<u8>>, body: Seq<u8> },
}

/// Follow cached entries from `key`: an entry whose metadata holds a
/// `location` header is itself a redirect, resolved against the entry's own
/// URL, on a decremented counter.
pub open spec fn cached_lookup(
    disk: Map<Seq<u8>, CacheEntryView>,
    key: Seq<u8>,
    limit: int,
) -> CachedLookup
    decreases limit + 1,
{
    if limit < 0 {
        CachedLookup::TooMany
    } else if !disk.contains_key(key) {
        CachedLookup::Miss
    } else {
        let e = disk[key];
        if e.headers.contains_key(("location").spec_bytes()) {
            match crate::ident::url_join_of(key, e.headers[("location").spec_bytes()]) {
                Some(next) => cached_lookup(disk, next, limit - 1),
                None => CachedLookup::Invalid { at: key },
            }
        } else {
            CachedLookup::Hit { specifier: key, headers: e.headers, body: e.body }
        }
    }
}

/// Whether the cache may serve this identity under this setting.
pub open spec fn should_use_spec(
    disk: Map<Seq<u8>, CacheEntryView>,
    current: Seq<u8>,
    setting: CacheSettingView,
    now: int,
) -> bool {
    match setting {
        CacheSettingView::ReloadAll => false,
        CacheSettingView::Use => true,
        CacheSettingView::Only => true,
        CacheSettingView::RespectHeaders => disk.contains_key(current) && freshness_of(
            disk[current].headers,
            disk[current].time,
            now,
        ),
        CacheSettingView::ReloadSome(list) => reload_uses_cache(list, current),
    }
}

/// The prior ETag recorded for this identity.
pub open spec fn etag_of(disk: Map<Seq<u8>, CacheEntryView>, key: Seq<u8>) -> Option<Seq<u8>> {
    if disk.contains_key(key) && disk[key].headers.contains_key(("etag").spec_bytes()) {
        Some(disk[key].headers[("etag").spec_bytes()])
    } else {
        None
    }
}

/// The conditional request one hop issues: prior ETag as the validator, a
/// host-matched Authorization value, the optional Accept header.
pub open spec fn request_of(fv: FetcherView, flow: FlowView) -> RequestSpecView {
    RequestSpecView {
        url: flow.current,
        if_none_match: etag_of(fv.disk, flow.current),
        authorization: match first_token_for(fv.auth, host_of(flow.current)) {
            Some(t) => Some(bearer_of(t)),
            None => None,
        },
        accept: flow.accept,
    }
}

/// A header map holding only the content type.
pub open spec fn content_type_map(mime: Seq<u8>) -> Map<Seq<u8>, Seq<u8>> {
    Map::empty().insert(("content-type").spec_bytes(), mime)
}

/// A remote fetch completing: the artifact is memory-cached under the
/// requested identity and returned.
pub open spec fn done_remote(fv: FetcherView, flow: FlowView, f: FileView) -> (
    FetcherView,
    StepView,
) {
    (
        FetcherView { mem: fv.mem.insert(flow.requested, f), ..fv },
        StepView::Done(f),
    )
}

/// First step of a fetch: scheme validation, then an access check.
pub open spec fn fetch_start_spec(fv: FetcherView, specifier: Seq<u8>, accept: Option<Seq<u8>>, setting: Option<CacheSettingView>) -> StepView {
    if scheme_class_of(specifier) == Scheme::Other {
        StepView::Failed(
            FetchErrorView::UnsupportedScheme { scheme: crate::ident::scheme_seq_of(specifier) },
        )
    } else {
        StepView::CheckAccess(
            FlowView {
                requested: specifier,
                current: specifier,
                counter: 10,
                retried: false,
                accept,
                setting: match setting {
                    Some(s) => s,
                    None => fv.setting,
                },
                now: 0,
                phase: FlowPhase::Dispatch,
            },
        )
    }
}

/// After an access decision: dispatch by scheme, or decide between the
/// cache and the network for the current remote hop.
pub open spec fn fetch_access_spec(
    fv: FetcherView,
    flow0: FlowView,
    denied: Option<Seq<u8>>,
    now: int,
) -> (FetcherView, StepView) {
    if denied is Some {
        (fv, (StepView::Failed(FetchErrorView::AccessDenied { detail: denied->Some_0 })))
    } else {
        let flow = FlowView { now, ..flow0 };
        if flow.phase == FlowPhase::Dispatch {
            if fv.mem.contains_key(flow.requested) {
                (fv, StepView::Done(fv.mem[flow.requested]))
            } else {
                match scheme_class_of(flow.requested) {
                    Scheme::File => (fv, StepView::ReadLocal(flow)),
                    Scheme::Sjs => (fv, StepView::ReadLocal(flow)),
                    Scheme::Data => if data_url_ok(flow.requested) {
                        (
                            fv,
                            StepView::Done(
                                FileView {
                                    specifier: flow.requested,
                                    maybe_headers: Some(
                                        content_type_map(data_url_mime_of(flow.requested)),
                                    ),
                                    source: data_url_body_of(flow.requested),
                                },
                            ),
                        )
                    } else {
                        (
                            fv,
                            StepView::Failed(
                                FetchErrorView::InvalidDataUrl { specifier: flow.requested },
                            ),
                        )
                    },
                    Scheme::Blob => if fv.blobs.contains_key(flow.requested) {
                        (
                            fv,
                            StepView::Done(
                                FileView {
                                    specifier: flow.requested,
                                    maybe_headers: Some(
                                        content_type_map(fv.blobs[flow.requested].0),
                                    ),
                                    source: fv.blobs[flow.requested].1,
                                },
                            ),
                        )
                    } else {
                        (
                            fv,
                            StepView::Failed(
                                FetchErrorView::NotFound { specifier: flow.requested },
                            ),
                        )
                    },
                    _ => if !fv.allow_remote {
                        (
                            fv,
                            StepView::Failed(
                                FetchErrorView::RemoteNotAllowed { specifier: flow.requested },
                            ),
                        )
                    } else if flow.counter < 0 {
                        (fv, StepView::Failed(FetchErrorView::TooManyRedirects))
                    } else {
                        (fv, StepView::CheckAccess(FlowView { phase: FlowPhase::Remote, ..flow }))
                    },
                }
            }
        } else {
            let use_cache = should_use_spec(fv.disk, flow.current, flow.setting, now);
            let looked = if use_cache {
                cached_lookup(fv.disk, flow.current, flow.counter)
            } else {
                CachedLookup::Miss
            };
            match looked {
                CachedLookup::Hit { specifier, headers, body } => done_remote(
                    fv,
                    flow,
                    FileView { specifier, maybe_headers: Some(headers), source: body },
                ),
                CachedLookup::TooMany => (
                    fv,
                    StepView::Failed(FetchErrorView::TooManyRedirects),
                ),
                CachedLookup::Invalid { at } => (
                    fv,
                    StepView::Failed(
                        FetchErrorView::TransportFailure {
                            specifier: at,
                            detail: ("invalid redirect location").spec_bytes(),
                        },
                    ),
                ),
                CachedLookup::Miss => if flow.setting is Only {
                    (fv, StepView::Failed(FetchErrorView::NotCached { specifier: flow.current }))
                } else {
                    (fv, StepView::SendRequest(request_of(fv, flow), flow))
                },
            }
        }
    }
}

/// The single-retry policy: one backoff per hop, then a hard failure.
pub open spec fn retry_spec(fv: FetcherView, flow: FlowView, detail: Seq<u8>) -> (
    FetcherView,
    StepView,
) {
    if !flow.retried {
        (fv, StepView::Backoff(50, FlowView { retried: true, ..flow }))
    } else {
        (
            fv,
            StepView::Failed(
                FetchErrorView::TransportFailure { specifier: flow.current, detail },
            ),
        )
    }
}

/// Classify one transport outcome and act on it: not-modified serves the
/// cache, redirects persist their location and re-enter the loop, success
/// persists and returns, transient failures retry once, client errors fail.
pub open spec fn fetch_response_spec(fv: FetcherView, flow: FlowView, ev: TransportEventView) -> (
    FetcherView,
    StepView,
) {
    match ev {
        TransportEventView::Transient { detail } => retry_spec(fv, flow, detail),
        TransportEventView::Failed { detail } => (
            fv,
            StepView::Failed(
                FetchErrorView::TransportFailure { specifier: flow.current, detail },
            ),
        ),
        TransportEventView::Response { status, headers, body } => {
            if status == 304 {
                match cached_lookup(fv.disk, flow.current, 10) {
                    CachedLookup::Hit { specifier, headers, body } => done_remote(
                        fv,
                        flow,
                        FileView { specifier, maybe_headers: Some(headers), source: body },
                    ),
                    CachedLookup::TooMany => (
                        fv,
                        StepView::Failed(FetchErrorView::TooManyRedirects),
                    ),
                    CachedLookup::Invalid { at } => (
                        fv,
                        StepView::Failed(
                            FetchErrorView::TransportFailure {
                                specifier: at,
                                detail: ("invalid redirect location").spec_bytes(),
                            },
                        ),
                    ),
                    CachedLookup::Miss => (
                        fv,
                        StepView::Failed(
                            FetchErrorView::TransportFailure {
                                specifier: flow.current,
                                detail: ("not modified without a cached entry").spec_bytes(),
                            },
                        ),
                    ),
                }
            } else if 300 <= status <= 399 {
                let h = headers_of_raw(headers);
                if h.contains_key(("location").spec_bytes()) {
                    match crate::ident::url_join_of(flow.current, h[("location").spec_bytes()]) {
                        Some(next) => {
                            let fv2 = FetcherView {
                                disk: fv.disk.insert(
                                    flow.current,
                                    CacheEntryView { headers: h, time: flow.now, body: Seq::empty() },
                                ),
                                ..fv
                            };
                            if flow.counter - 1 < 0 {
                                (fv2, StepView::Failed(FetchErrorView::TooManyRedirects))
                            } else {
                                (
                                    fv2,
                                    StepView::CheckAccess(
                                        FlowView {
                                            current: next,
                                            counter: flow.counter - 1,
                                            retried: false,
                                            ..flow
                                        },
                                    ),
                                )
                            }
                        },
                        None => (
                            fv,
                            StepView::Failed(
                                FetchErrorView::TransportFailure {
                                    specifier: flow.current,
                                    detail: ("invalid redirect location").spec_bytes(),
                                },
                            ),
                        ),
                    }
                } else {
                    (
                        fv,
                        StepView::Failed(
                            FetchErrorView::TransportFailure {
                                specifier: flow.current,
                                detail: ("redirect without location").spec_bytes(),
                            },
                        ),
                    )
                }
            } else if 500 <= status <= 599 {
                retry_spec(fv, flow, crate::bytestr::dec_of(status as int))
            } else if 400 <= status <= 499 {
                if status == 404 {
                    (fv, StepView::Failed(FetchErrorView::NotFound { specifier: flow.current }))
                } else {
                    (
                        fv,
                        StepView::Failed(
                            FetchErrorView::ClientError { specifier: flow.current, status },
                        ),
                    )
                }
            } else {
                let h = headers_of_raw(headers);
                let fv2 = FetcherView {
                    disk: fv.disk.insert(
                        flow.current,
                        CacheEntryView { headers: h, time: flow.now, body },
                    ),
                    ..fv
                };
                done_remote(
                    fv2,
                    flow,
                    FileView { specifier: flow.current, maybe_headers: Some(h), source: body },
                )
            }
        },
    }
}

/// After the backoff: the same request again.
pub open spec fn fetch_backoff_spec(fv: FetcherView, flow: FlowView) -> StepView {
    StepView::SendRequest(request_of(fv, flow), flow)
}

/// After a local read: the bytes as an artifact, or not-found; local reads
/// never populate the memory cache.
pub open spec fn fetch_local_spec(flow: FlowView, data: Option<Seq<u8>>) -> StepView {
    match data {
        Some(b) => StepView::Done(
            FileView { specifier: flow.requested, maybe_headers: None, source: b },
        ),
        None => StepView::Failed(FetchErrorView::NotFound { specifier: flow.requested }),
    }
}

} // verus!

verus! {

/// Option-of-setting view.
pub open spec fn osetting(o: Option<CacheSetting>) -> Option<CacheSettingView> {
    match o {
        Some(s) => Some(s@),
        None => None,
    }
}

/// Access-decision view: the denial detail, if denied.
pub open spec fn denied_of(r: Result<(), Vec<u8>>) -> Option<Seq<u8>> {
    match r {
        Ok(u) => None,
        Err(d) => Some(d@),
    }
}

/// What a synchronous source lookup found.
pub enum GetSourceStep {
    /// A memory-cached artifact.
    Found(File),
    /// A local-scheme identity not in memory: read it from disk each call.
    NeedsLocal,
    /// Not cached and not local.
    Absent,
}

/// A structure for resolving, fetching and caching source files.
pub struct FileFetcher {
    auth_tokens: AuthTokens,
    allow_remote: bool,
    cache: FileCache,
    cache_setting: CacheSetting,
    http_cache: HttpCache,
    blob_store: BlobStore,
}

impl View for FileFetcher {
    type V = FetcherView;

    closed spec fn view(&self) -> FetcherView {
        FetcherView {
            auth: self.auth_tokens@,
            allow_remote: self.allow_remote,
            mem: self.cache@,
            setting: self.cache_setting@,
            disk: self.http_cache@,
            blobs: self.blob_store@,
        }
    }
}

impl FileFetcher {
    /// The caches are well formed.
    pub closed spec fn wf(&self) -> bool {
        self.cache.wf() && self.http_cache.wf() && self.blob_store.wf()
    }

    /// A fresh fetcher: empty caches, the given default policy, and auth
    /// tokens parsed from the given environment-style value.
    pub fn new(cache_setting: CacheSetting, allow_remote: bool, auth_env: Option<&Vec<u8>>) -> (r:
        Self)
        ensures
            r.wf(),
            r@.allow_remote == allow_remote,
            r@.setting == cache_setting@,
            r@.mem == Map::<Seq<u8>, FileView>::empty(),
            r@.disk == Map::<Seq<u8>, CacheEntryView>::empty(),
            r@.blobs == Map::<Seq<u8>, (Seq<u8>, Seq<u8>)>::empty(),
            auth_env matches Some(s) ==> r@.auth == crate::auth_tokens::tokens_of(s@),
            auth_env is None ==> r@.auth == Seq::<(Seq<u8>, Seq<u8>)>::empty(),
    {
        FileFetcher {
            auth_tokens: AuthTokens::new(auth_env),
            allow_remote,
            cache: FileCache::new(),
            cache_setting,
            http_cache: HttpCache::new(),
            blob_store: BlobStore::new(),
        }
    }

    /// The default cache policy this fetcher was built with.
    pub fn cache_setting(&self) -> (r: &CacheSetting)
        ensures
            r@ == self@.setting,
    {
        &self.cache_setting
    }

    /// Insert a temporary artifact into the memory cache, keyed by its own
    /// identity; returns any prior artifact.
    pub fn insert_cached(&mut self, file: File) -> (r: Option<File>)
        requires
            old(self).wf(),
            file.wf(),
        ensures
            final(self).wf(),
            final(self)@ == (FetcherView {
                mem: old(self)@.mem.insert(file@.specifier, file@),
                ..old(self)@
            }),
            match r {
                Some(prior) => old(self)@.mem.contains_key(file@.specifier) && prior@ == old(
                    self,
                )@.mem[file@.specifier],
                None => !old(self)@.mem.contains_key(file@.specifier),
            },
    {
        let key = file.specifier.clone();
        self.cache.insert(&key, file)
    }

    /// Register a blob under a URL, for later `blob:` fetches.
    pub fn insert_blob_entry(&mut self, specifier: &Identity, media_type: Vec<u8>, bytes: Vec<u8>)
        requires
            old(self).wf(),
        ensures
            final(self).wf(),
            final(self)@ == (FetcherView {
                blobs: old(self)@.blobs.insert(specifier@, (media_type@, bytes@)),
                ..old(self)@
            }),
    {
        self.blob_store.insert_object_url(specifier, media_type, bytes)
    }

    /// Seed one disk-cache entry, as a persisting driver does at startup.
    pub fn seed_remote_entry(&mut self, key: &Vec<u8>, headers: Headers, time: u64, body: Vec<u8>)
        requires
            old(self).wf(),
            headers.wf(),
        ensures
            final(self).wf(),
            final(self)@ == (FetcherView {
                disk: old(self)@.disk.insert(
                    key@,
                    CacheEntryView { headers: headers@, time: time as int, body: body@ },
                ),
                ..old(self)@
            }),
    {
        self.http_cache.set(key, headers, time, body)
    }

    /// The disk-cache pairs, for drivers that persist the store.
    pub fn http_cache_entries(&self) -> (r: &Vec<(Vec<u8>, crate::http_cache::CacheEntry)>)
        requires
            self.wf(),
        ensures
            amap_of(crate::http_cache::store_view(r@)) == self@.disk,
    {
        self.http_cache.entries()
    }

    /// Fetch a cached remote artifact, following cached redirect metadata.
    pub fn fetch_cached(&self, specifier: &Identity, redirect_limit: i64) -> (r: Result<
        Option<File>,
        FetchError,
    >)
        requires
            self.wf(),
        ensures
            match cached_lookup(self@.disk, specifier@, redirect_limit as int) {
                CachedLookup::Hit { specifier: s, headers, body } => r matches Ok(Some(f)) && f@
                    == (FileView { specifier: s, maybe_headers: Some(headers), source: body })
                    && f.wf(),
                CachedLookup::Miss => r matches Ok(None),
                CachedLookup::TooMany => r matches Err(e) && e@
                    == (FetchErrorView::TooManyRedirects),
                CachedLookup::Invalid { at } => r matches Err(e) && e@
                    == (FetchErrorView::TransportFailure {
                    specifier: at,
                    detail: ("invalid redirect location").spec_bytes(),
                }),
            },
    {
        let loc_key = str_to_bytes("location");
        let mut cur: Identity = specifier.clone();
        let mut lim: i64 = redirect_limit;
        loop
            invariant
                self.wf(),
                loc_key@ == ("location").spec_bytes(),
                cached_lookup(self@.disk, specifier@, redirect_limit as int) == cached_lookup(
                    self@.disk,
                    cur@,
                    lim as int,
                ),
            decreases lim + 1,
        {
            if lim < 0 {
                return Err(FetchError::TooManyRedirects);
            }
            match self.http_cache.read_metadata(cur.text()) {
                None => {
                    return Ok(None);
                },
                Some((h, _t)) => {
                    match h.get(&loc_key) {
                        Some(loc) => {
                            match cur.join(loc) {
                                Some(next) => {
                                    cur = next;
                                    lim = lim - 1;
                                },
                                None => {
                                    return Err(
                                        FetchError::TransportFailure {
                                            specifier: clone_bytes(cur.text()),
                                            detail: str_to_bytes("invalid redirect location"),
                                        },
                                    );
                                },
                            }
                        },
                        None => {
                            match self.http_cache.read_file_bytes(cur.text()) {
                                Some(b) => {
                                    return Ok(
                                        Some(
                                            File {
                                                specifier: cur,
                                                maybe_headers: Some(h),
                                                source: b,
                                            },
                                        ),
                                    );
                                },
                                None => {
                                    proof {
                                        assert(false);
                                    }
                                    return Ok(None);
                                },
                            }
                        },
                    }
                },
            }
        }
    }

    /// Fetch an artifact: the first step of the machine.
    pub fn fetch(&self, specifier: &Identity) -> (r: FetchStep)
        requires
            self.wf(),
        ensures
            r@ == fetch_start_spec(self@, specifier@, None, None),
    {
        self.fetch_with_options(
            specifier,
            FetchOptions { maybe_accept: None, maybe_cache_setting: None },
        )
    }

    /// Fetch with an Accept header or a cache-setting override.
    pub fn fetch_with_options(&self, specifier: &Identity, options: FetchOptions) -> (r: FetchStep)
        requires
            self.wf(),
        ensures
            r@ == fetch_start_spec(
                self@,
                specifier@,
                obytes(options.maybe_accept),
                osetting(options.maybe_cache_setting),
            ),
    {
        let scheme = specifier.scheme();
        if let Scheme::Other = scheme {
            return FetchStep::Failed(
                FetchError::UnsupportedScheme { scheme: specifier.scheme_text() },
            );
        }
        let setting = match options.maybe_cache_setting {
            Some(s) => s,
            None => self.cache_setting.clone(),
        };
        FetchStep::CheckAccess(
            FetchFlow {
                requested: specifier.clone(),
                current: specifier.clone(),
                counter: 10,
                retried: false,
                accept: options.maybe_accept,
                setting,
                now: 0,
                phase: FlowPhase::Dispatch,
            },
        )
    }

    /// Whether the cache may serve the flow's current identity.
    fn should_use_cache(&self, flow: &FetchFlow) -> (r: bool)
        requires
            self.wf(),
        ensures
            r == should_use_spec(self@.disk, flow@.current, flow@.setting, flow@.now),
    {
        match &flow.setting {
            CacheSetting::ReloadAll => false,
            CacheSetting::Use => true,
            CacheSetting::Only => true,
            CacheSetting::RespectHeaders => {
                match self.http_cache.read_metadata(flow.current.text()) {
                    Some((h, t)) => is_fresh(&h, t, flow.now),
                    None => false,
                }
            },
            CacheSetting::ReloadSome(list) => reload_uses_cache_exec(list, flow.current.text()),
        }
    }

    /// The conditional request for the flow's current hop.
    fn build_request(&self, flow: &FetchFlow) -> (r: RequestSpec)
        requires
            self.wf(),
        ensures
            r@ == request_of(self@, flow@),
    {
        let etag_key = str_to_bytes("etag");
        let if_none_match = match self.http_cache.read_metadata(flow.current.text()) {
            Some((h, _t)) => match h.get(&etag_key) {
                Some(v) => Some(clone_bytes(v)),
                None => None,
            },
            None => None,
        };
        let authorization = match self.auth_tokens.get(&flow.current) {
            Some(t) => Some(bearer_value(&t)),
            None => None,
        };
        RequestSpec {
            url: clone_bytes(flow.current.text()),
            if_none_match,
            authorization,
            accept: clone_obytes(&flow.accept),
        }
    }

    /// Continue after the driver's access decision for the flow.
    pub fn fetch_access(&mut self, flow: FetchFlow, access: Result<(), Vec<u8>>, now: u64) -> (r:
        FetchStep)
        requires
            old(self).wf(),
        ensures
            final(self).wf(),
            final(self)@ == fetch_access_spec(old(self)@, flow@, denied_of(access), now as int).0,
            r@ == fetch_access_spec(old(self)@, flow@, denied_of(access), now as int).1,
    {
        let detail = match access {
            Ok(u) => None,
            Err(d) => Some(d),
        };
        if let Some(d) = detail {
            return FetchStep::Failed(FetchError::AccessDenied { detail: d });
        }
        let flow = FetchFlow { now, ..flow };
        match flow.phase {
            FlowPhase::Dispatch => {
                if let Some(f) = self.cache.get(&flow.requested) {
                    return FetchStep::Done(f);
                }
                match flow.requested.scheme() {
                    Scheme::File => FetchStep::ReadLocal(flow),
                    Scheme::Sjs => FetchStep::ReadLocal(flow),
                    Scheme::Data => {
                        match parse_data_url(flow.requested.text()) {
                            Some((mime, body)) => {
                                let mut h = Headers::new();
                                let ct = str_to_bytes("content-type");
                                h.insert(&ct, mime);
                                FetchStep::Done(
                                    File {
                                        specifier: flow.requested,
                                        maybe_headers: Some(h),
                                        source: body,
                                    },
                                )
                            },
                            None => FetchStep::Failed(
                                FetchError::InvalidDataUrl {
                                    specifier: clone_bytes(flow.requested.text()),
                                },
                            ),
                        }
                    },
                    Scheme::Blob => {
                        match self.blob_store.get_object_url(&flow.requested) {
                            Some((media_type, bytes)) => {
                                let mut h = Headers::new();
                                let ct = str_to_bytes("content-type");
                                h.insert(&ct, media_type);
                                FetchStep::Done(
                                    File {
                                        specifier: flow.requested,
                                        maybe_headers: Some(h),
                                        source: bytes,
                                    },
                                )
                            },
                            None => FetchStep::Failed(
                                FetchError::NotFound {
                                    specifier: clone_bytes(flow.requested.text()),
                                },
                            ),
                        }
                    },
                    _ => {
                        if !self.allow_remote {
                            FetchStep::Failed(
                                FetchError::RemoteNotAllowed {
                                    specifier: clone_bytes(flow.requested.text()),
                                },
                            )
                        } else if flow.counter < 0 {
                            FetchStep::Failed(FetchError::TooManyRedirects)
                        } else {
                            FetchStep::CheckAccess(FetchFlow { phase: FlowPhase::Remote, ..flow })
                        }
                    },
                }
            },
            FlowPhase::Remote => {
                let use_cache = self.should_use_cache(&flow);
                if use_cache {
                    match self.fetch_cached(&flow.current, flow.counter) {
                        Ok(Some(f)) => {
                            self.cache.insert(&flow.requested, f.clone());
                            return FetchStep::Done(f);
                        },
                        Ok(None) => {},
                        Err(e) => {
                            return FetchStep::Failed(e);
                        },
                    }
                }
                if let CacheSetting::Only = &flow.setting {
                    return FetchStep::Failed(
                        FetchError::NotCached { specifier: clone_bytes(flow.current.text()) },
                    );
                }
                let rq = self.build_request(&flow);
                FetchStep::SendRequest(rq, flow)
            },
        }
    }

    /// The single-retry policy for one hop.
    fn retry_step(&self, flow: FetchFlow, detail: Vec<u8>) -> (r: FetchStep)
        ensures
            r@ == retry_spec(self@, flow@, detail@).1,
    {
        if !flow.retried {
            FetchStep::Backoff(50, FetchFlow { retried: true, ..flow })
        } else {
            FetchStep::Failed(
                FetchError::TransportFailure {
                    specifier: clone_bytes(flow.current.text()),
                    detail,
                },
            )
        }
    }

    /// Continue after one transport attempt for the flow.  A not-modified
    /// response must correspond to a cached entry; a server that sends one
    /// gratuitously gets a transport failure, not an abort.
    pub fn fetch_response(&mut self, flow: FetchFlow, event: TransportEvent) -> (r: FetchStep)
        requires
            old(self).wf(),
        ensures
            final(self).wf(),
            final(self)@ == fetch_response_spec(old(self)@, flow@, event@).0,
            r@ == fetch_response_spec(old(self)@, flow@, event@).1,
    {
        match event {
            TransportEvent::Transient { detail } => self.retry_step(flow, detail),
            TransportEvent::Failed { detail } => FetchStep::Failed(
                FetchError::TransportFailure {
                    specifier: clone_bytes(flow.current.text()),
                    detail,
                },
            ),
            TransportEvent::Response { status, headers, body } => {
                if status == 304 {
                    match self.fetch_cached(&flow.current, 10) {
                        Ok(Some(f)) => {
                            self.cache.insert(&flow.requested, f.clone());
                            FetchStep::Done(f)
                        },
                        Ok(None) => FetchStep::Failed(
                            FetchError::TransportFailure {
                                specifier: clone_bytes(flow.current.text()),
                                detail: str_to_bytes("not modified without a cached entry"),
                            },
                        ),
                        Err(e) => FetchStep::Failed(e),
                    }
                } else if 300 <= status && status <= 399 {
                    let h = headers_from_raw(&headers);
                    let loc_key = str_to_bytes("location");
                    let loc = match h.get(&loc_key) {
                        Some(loc) => Some(clone_bytes(loc)),
                        None => None,
                    };
                    match loc {
                        Some(loc) => {
                            match flow.current.join(&loc) {
                                Some(next) => {
                                    let cur_key = clone_bytes(flow.current.text());
                                    let empty_body: Vec<u8> = Vec::new();
                                    proof {
                                        assert(empty_body@ =~= Seq::<u8>::empty());
                                    }
                                    self.http_cache.set(&cur_key, h, flow.now, empty_body);
                                    if flow.counter < 1 {
                                        FetchStep::Failed(FetchError::TooManyRedirects)
                                    } else {
                                        FetchStep::CheckAccess(
                                            FetchFlow {
                                                current: next,
                                                counter: flow.counter - 1,
                                                retried: false,
                                                ..flow
                                            },
                                        )
                                    }
                                },
                                None => FetchStep::Failed(
                                    FetchError::TransportFailure {
                                        specifier: clone_bytes(flow.current.text()),
                                        detail: str_to_bytes("invalid redirect location"),
                                    },
                                ),
                            }
                        },
                        None => FetchStep::Failed(
                            FetchError::TransportFailure {
                                specifier: clone_bytes(flow.current.text()),
                                detail: str_to_bytes("redirect without location"),
                            },
                        ),
                    }
                } else if 500 <= status && status <= 599 {
                    self.retry_step(flow, crate::bytestr::u16_to_dec(status))
                } else if 400 <= status && status <= 499 {
                    if status == 404 {
                        FetchStep::Failed(
                            FetchError::NotFound { specifier: clone_bytes(flow.current.text()) },
                        )
                    } else {
                        FetchStep::Failed(
                            FetchError::ClientError {
                                specifier: clone_bytes(flow.current.text()),
                                status,
                            },
                        )
                    }
                } else {
                    let h = headers_from_raw(&headers);
                    let cur_key = clone_bytes(flow.current.text());
                    let stored_body = clone_bytes(&body);
                    self.http_cache.set(&cur_key, h.clone(), flow.now, stored_body);
                    let f = File {
                        specifier: flow.current.clone(),
                        maybe_headers: Some(h),
                        source: body,
                    };
                    self.cache.insert(&flow.requested, f.clone());
                    FetchStep::Done(f)
                }
            },
        }
    }

    /// Continue after the retry backoff: the same request again.
    pub fn fetch_backoff(&self, flow: FetchFlow) -> (r: FetchStep)
        requires
            self.wf(),
        ensures
            r@ == fetch_backoff_spec(self@, flow@),
    {
        let rq = self.build_request(&flow);
        FetchStep::SendRequest(rq, flow)
    }

    /// Continue after the driver read (or failed to read) a local file.
    pub fn fetch_local(&self, flow: FetchFlow, data: Option<Vec<u8>>) -> (r: FetchStep)
        ensures
            r@ == fetch_local_spec(flow@, obytes(data)),
    {
        match data {
            Some(b) => FetchStep::Done(
                File { specifier: flow.requested, maybe_headers: None, source: b },
            ),
            None => FetchStep::Failed(
                FetchError::NotFound { specifier: clone_bytes(flow.requested.text()) },
            ),
        }
    }

    /// Synchronously look a source up: a memory-cache hit, a local identity
    /// to be read from disk at each call, or nothing.
    pub fn get_source(&self, specifier: &Identity) -> (r: GetSourceStep)
        requires
            self.wf(),
        ensures
            match r {
                GetSourceStep::Found(f) => self@.mem.contains_key(specifier@) && f@
                    == self@.mem[specifier@] && f.wf(),
                GetSourceStep::NeedsLocal => !self@.mem.contains_key(specifier@) && (
                scheme_class_of(specifier@) == Scheme::File || scheme_class_of(specifier@)
                    == Scheme::Sjs),
                GetSourceStep::Absent => !self@.mem.contains_key(specifier@) && scheme_class_of(
                    specifier@,
                ) != Scheme::File && scheme_class_of(specifier@) != Scheme::Sjs,
            },
    {
        match self.cache.get(specifier) {
            Some(f) => GetSourceStep::Found(f),
            None => {
                let scheme = specifier.scheme();
                match scheme {
                    Scheme::File => GetSourceStep::NeedsLocal,
                    Scheme::Sjs => GetSourceStep::NeedsLocal,
                    _ => GetSourceStep::Absent,
                }
            },
        }
    }

    /// Turn a local read's result into the artifact `get_source` denotes.
    pub fn get_source_local(&self, specifier: &Identity, data: Option<Vec<u8>>) -> (r: Option<
        File,
    >)
        ensures
            match r {
                Some(f) => data matches Some(b) && f@ == (FileView {
                    specifier: specifier@,
                    maybe_headers: None,
                    source: b@,
                }),
                None => data is None,
            },
    {
        match data {
            Some(b) => Some(
                File { specifier: specifier.clone(), maybe_headers: None, source: b },
            ),
            None => None,
        }
    }
}

} // verus!
