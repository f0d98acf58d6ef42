//! The module loader: reference resolution, media classification, and the
//! hand-off to the compiler collaborator.
//!
//! Classification reads the specifier alone: a data URL's MIME type, or the
//! extension of a URL path.  A JSON-classified module is only accepted when
//! the import carried the JSON type hint.  Executable code is handed out in
//! a compile request; everything else passes through unchanged.

use vstd::prelude::*;
use vstd::string::StringSliceAdditionalSpecFns;

use crate::bytestr::{bytes_eq, bytes_range, clone_bytes, find_byte, find_from, find_pat_from,
    find_pattern, is_prefix_of, rfind_byte, rfind_from, starts_with, str_to_bytes, DOT,
    NUMBER_SIGN, QUESTION_MARK, SLASH};
use crate::errors::{FetchErrorView, LoadError, LoadErrorView, ResolveError, ResolveErrorView};
use crate::file_fetcher::{File, FileFetcher};
use crate::ident::{identity_from_canonical, scheme_class_of, scheme_wf, url_join_of, url_norm_of,
    Identity, Scheme};
use crate::inline_data::{data_url_mime_of, data_url_ok, parse_data_url};

verus! {

/// The media classification of a module.
#[derive(Debug, PartialEq, Eq)]
pub enum ModuleType {
    JavaScript,
    Json,
    Wasm,
    Other(Vec<u8>),
}

/// Abstract value of a `ModuleType`.
pub enum ModuleTypeView {
    JavaScript,
    Json,
    Wasm,
    Other(Seq<u8>),
}

impl View for ModuleType {
    type V = ModuleTypeView;

    open spec fn view(&self) -> ModuleTypeView {
        match self {
            ModuleType::JavaScript => ModuleTypeView::JavaScript,
            ModuleType::Json => ModuleTypeView::Json,
            ModuleType::Wasm => ModuleTypeView::Wasm,
            ModuleType::Other(t) => ModuleTypeView::Other(t@),
        }
    }
}

impl Clone for ModuleType {
    fn clone(&self) -> (r: Self)
        ensures
            r@ == self@,
    {
        match self {
            ModuleType::JavaScript => ModuleType::JavaScript,
            ModuleType::Json => ModuleType::Json,
            ModuleType::Wasm => ModuleType::Wasm,
            ModuleType::Other(t) => ModuleType::Other(clone_bytes(t)),
        }
    }
}

/// The type hint carried by the import statement.
#[derive(Debug, PartialEq, Eq)]
pub enum RequestedModuleType {
    Unspecified,
    Json,
    Other(Vec<u8>),
}

/// Abstract value of a `RequestedModuleType`.
pub enum RequestedTypeView {
    Unspecified,
    Json,
    Other(Seq<u8>),
}

impl View for RequestedModuleType {
    type V = RequestedTypeView;

    open spec fn view(&self) -> RequestedTypeView {
        match self {
            RequestedModuleType::Unspecified => RequestedTypeView::Unspecified,
            RequestedModuleType::Json => RequestedTypeView::Json,
            RequestedModuleType::Other(t) => RequestedTypeView::Other(t@),
        }
    }
}

/// First `?` or `#` at or after `i`, else the length: where a URL path
/// ends.
pub open spec fn path_stop_from(s: Seq<u8>, i: int) -> int
    decreases s.len() - i,
{
    if !(0 <= i < s.len()) {
        s.len() as int
    } else if s[i] == QUESTION_MARK || s[i] == NUMBER_SIGN {
        i
    } else {
        path_stop_from(s, i + 1)
    }
}

proof fn lemma_path_stop_bounds(s: Seq<u8>, i: int)
    requires
        0 <= i <= s.len(),
    ensures
        i <= path_stop_from(s, i) <= s.len(),
    decreases s.len() - i,
{
    if 0 <= i < s.len() && !(s[i] == QUESTION_MARK || s[i] == NUMBER_SIGN) {
        lemma_path_stop_bounds(s, i + 1);
    }
}

/// The path of serialized URL text: from the first slash after the
/// authority to the query or fragment; empty for URLs without one.
pub open spec fn url_path_of(text: Seq<u8>) -> Seq<u8> {
    match find_pat_from(text, ("://").spec_bytes(), 0) {
        Some(i) => {
            let after = i + ("://").spec_bytes().len();
            match find_from(text, SLASH, after) {
                Some(p) => text.subrange(p, path_stop_from(text, p)),
                None => Seq::empty(),
            }
        },
        None => Seq::empty(),
    }
}

/// The extension of a path: the part of its last segment after the last
/// dot, provided the dot is not the segment's first byte.
pub open spec fn ext_of(path: Seq<u8>) -> Option<Seq<u8>> {
    if path.len() == 0 {
        None
    } else {
        let start = match rfind_from(path, SLASH, path.len() - 1) {
            Some(j) => j + 1,
            None => 0int,
        };
        let fname = path.subrange(start, path.len() as int);
        if fname.len() == 0 {
            None
        } else {
            match rfind_from(fname, DOT, fname.len() - 1) {
                Some(d) => if d > 0 {
                    Some(fname.subrange(d + 1, fname.len() as int))
                } else {
                    None
                },
                None => None,
            }
        }
    }
}

/// Extract a URL text's path.
pub fn url_path(text: &Vec<u8>) -> (r: Vec<u8>)
    ensures
        r@ == url_path_of(text@),
{
    let pat = str_to_bytes("://");
    if pat.len() == 0 {
        let r: Vec<u8> = Vec::new();
        proof {
            assert(r@ =~= Seq::<u8>::empty());
        }
        return r;
    }
    let n = text.len();
    match find_pattern(text, &pat, 0) {
        Some(i) => {
            proof {
                crate::bytestr::lemma_find_pat_from_props(text@, pat@, 0);
                assert(i + pat@.len() <= n as int);
            }
            let after = i + pat.len();
            match find_byte(text, SLASH, after) {
                Some(p) => {
                    proof {
                        crate::bytestr::lemma_find_from_props(text@, SLASH, after as int);
                        lemma_path_stop_bounds(text@, p as int);
                    }
                    let mut stop = p;
                    while stop < text.len() && text[stop] != QUESTION_MARK && text[stop]
                        != NUMBER_SIGN
                        invariant
                            p <= stop <= text@.len(),
                            path_stop_from(text@, p as int) == path_stop_from(text@, stop as int),
                        decreases text@.len() - stop,
                    {
                        stop = stop + 1;
                    }
                    proof {
                        assert(path_stop_from(text@, stop as int) == stop as int);
                    }
                    bytes_range(text, p, stop)
                },
                None => {
                    let r: Vec<u8> = Vec::new();
                    proof {
                        assert(r@ =~= Seq::<u8>::empty());
                    }
                    r
                },
            }
        },
        None => {
            let r: Vec<u8> = Vec::new();
            proof {
                assert(r@ =~= Seq::<u8>::empty());
            }
            r
        },
    }
}

/// Extract a path's extension.
pub fn path_extension(path: &Vec<u8>) -> (r: Option<Vec<u8>>)
    ensures
        match r {
            Some(e) => ext_of(path@) == Some(e@),
            None => ext_of(path@) is None,
        },
{
    if path.len() == 0 {
        return None;
    }
    let start = match rfind_byte(path, SLASH, path.len() - 1) {
        Some(j) => {
            proof {
                crate::bytestr::lemma_rfind_from_props(path@, SLASH, path@.len() - 1);
            }
            j + 1
        },
        None => 0,
    };
    let fname = bytes_range(path, start, path.len());
    if fname.len() == 0 {
        return None;
    }
    match rfind_byte(&fname, DOT, fname.len() - 1) {
        Some(d) => {
            proof {
                crate::bytestr::lemma_rfind_from_props(fname@, DOT, fname@.len() - 1);
            }
            if d > 0 {
                Some(bytes_range(&fname, d + 1, fname.len()))
            } else {
                None
            }
        },
        None => None,
    }
}

/// The classification evidence a specifier offers: a data URL's MIME type,
/// a URL path, or nothing.
pub open spec fn module_type_of(text: Seq<u8>, requested: RequestedTypeView) -> ModuleTypeView {
    let fallback = match requested {
        RequestedTypeView::Other(t) => ModuleTypeView::Other(t),
        _ => ModuleTypeView::JavaScript,
    };
    match scheme_class_of(text) {
        Scheme::Data => {
            let m = data_url_mime_of(text);
            if !data_url_ok(text) {
                fallback
            } else if m == ("application/json").spec_bytes() {
                ModuleTypeView::Json
            } else if m == ("application/wasm").spec_bytes() {
                ModuleTypeView::Wasm
            } else {
                fallback
            }
        },
        Scheme::File | Scheme::Http | Scheme::Https => {
            let e = ext_of(url_path_of(text));
            if e == Some(("json").spec_bytes()) {
                ModuleTypeView::Json
            } else if e == Some(("wasm").spec_bytes()) {
                ModuleTypeView::Wasm
            } else {
                fallback
            }
        },
        _ => fallback,
    }
}

/// What planning a load decides: the classification, or why it is
/// rejected.  A JSON classification without the JSON type hint is a hard
/// error; an invalid data URL cannot be classified at all.
pub open spec fn plan_of(text: Seq<u8>, requested: RequestedTypeView) -> Result<
    ModuleTypeView,
    LoadErrorView,
> {
    if scheme_class_of(text) == Scheme::Data && !data_url_ok(text) {
        Err(LoadErrorView::Fetch(FetchErrorView::InvalidDataUrl { specifier: text }))
    } else {
        let mt = module_type_of(text, requested);
        if mt is Json && !(requested is Json) {
            Err(LoadErrorView::JsonAttributeMismatch { specifier: text })
        } else {
            Ok(mt)
        }
    }
}

/// A planned load: the specifier and its classification.
pub struct LoadPlan {
    pub specifier: Identity,
    pub module_type: ModuleType,
}

/// What the compiler collaborator is asked to do.
pub struct CompileRequest {
    pub specifier: Identity,
    pub source: Vec<u8>,
}

/// A loaded module: classification and final code bytes.
pub struct ModuleRecord {
    pub specifier: Identity,
    pub module_type: ModuleType,
    pub code: Vec<u8>,
}

/// What follows the fetch: hand executable code to the compiler, or the
/// bytes straight through.
pub enum LoadOutcome {
    Compile(CompileRequest),
    Ready(ModuleRecord),
}

/// Classify a module and enforce the JSON-attribute rule, before any
/// fetch.
pub fn plan_load(specifier: &Identity, requested: &RequestedModuleType) -> (r: Result<
    LoadPlan,
    LoadError,
>)
    ensures
        match r {
            Ok(plan) => plan_of(specifier@, requested@) == Ok::<ModuleTypeView, LoadErrorView>(
                plan.module_type@,
            ) && plan.specifier@ == specifier@,
            Err(e) => plan_of(specifier@, requested@) == Err::<ModuleTypeView, LoadErrorView>(e@),
        },
{
    let scheme = specifier.scheme();
    let fallback = match requested {
        RequestedModuleType::Other(t) => ModuleType::Other(clone_bytes(t)),
        _ => ModuleType::JavaScript,
    };
    let module_type = match scheme {
        Scheme::Data => {
            match parse_data_url(specifier.text()) {
                Some((mime, _body)) => {
                    if bytes_eq(&mime, &str_to_bytes("application/json")) {
                        ModuleType::Json
                    } else if bytes_eq(&mime, &str_to_bytes("application/wasm")) {
                        ModuleType::Wasm
                    } else {
                        fallback
                    }
                },
                None => {
                    return Err(
                        LoadError::Fetch(
                            crate::errors::FetchError::InvalidDataUrl {
                                specifier: clone_bytes(specifier.text()),
                            },
                        ),
                    );
                },
            }
        },
        Scheme::File | Scheme::Http | Scheme::Https => {
            let path = url_path(specifier.text());
            match path_extension(&path) {
                Some(e) => {
                    if bytes_eq(&e, &str_to_bytes("json")) {
                        ModuleType::Json
                    } else if bytes_eq(&e, &str_to_bytes("wasm")) {
                        ModuleType::Wasm
                    } else {
                        fallback
                    }
                },
                None => fallback,
            }
        },
        _ => fallback,
    };
    let is_json = match &module_type {
        ModuleType::Json => true,
        _ => false,
    };
    let requested_json = match requested {
        RequestedModuleType::Json => true,
        _ => false,
    };
    if is_json && !requested_json {
        return Err(
            LoadError::JsonAttributeMismatch { specifier: clone_bytes(specifier.text()) },
        );
    }
    Ok(LoadPlan { specifier: specifier.clone(), module_type })
}

/// After the fetch: executable code goes to the compiler, anything else
/// passes through unmodified under the plan's classification.
pub fn finish_load(plan: LoadPlan, file: File) -> (r: LoadOutcome)
    ensures
        match r {
            LoadOutcome::Compile(req) => plan.module_type@ is JavaScript && req.specifier@
                == plan.specifier@ && req.source@ == file@.source,
            LoadOutcome::Ready(m) => !(plan.module_type@ is JavaScript) && m.specifier@
                == plan.specifier@ && m.module_type@ == plan.module_type@ && m.code@
                == file@.source,
        },
{
    match plan.module_type {
        ModuleType::JavaScript => LoadOutcome::Compile(
            CompileRequest { specifier: plan.specifier, source: file.source },
        ),
        mt => LoadOutcome::Ready(
            ModuleRecord { specifier: plan.specifier, module_type: mt, code: file.source },
        ),
    }
}

/// After the compiler collaborator: its output as the module's code, or
/// `CompileFailed` where it produced nothing.
pub fn complete_compile(req: CompileRequest, compiled: Option<Vec<u8>>) -> (r: Result<
    ModuleRecord,
    LoadError,
>)
    ensures
        match r {
            Ok(m) => compiled matches Some(c) && m.specifier@ == req.specifier@ && m.module_type@
                is JavaScript && m.code@ == c@,
            Err(e) => compiled is None && e@ == (LoadErrorView::CompileFailed {
                specifier: req.specifier@,
            }),
        },
{
    match compiled {
        Some(code) => Ok(
            ModuleRecord {
                specifier: req.specifier,
                module_type: ModuleType::JavaScript,
                code,
            },
        ),
        None => Err(
            LoadError::CompileFailed { specifier: clone_bytes(req.specifier.text()) },
        ),
    }
}

/// A JSON-classified module without the JSON type hint is rejected with
/// `JsonAttributeMismatch`; with the hint it is accepted and its bytes pass
/// through without a compile step.
pub proof fn lemma_json_attribute_rule(text: Seq<u8>, requested: RequestedTypeView)
    requires
        module_type_of(text, requested) is Json,
        !(scheme_class_of(text) == Scheme::Data && !data_url_ok(text)),
    ensures
        !(requested is Json) ==> plan_of(text, requested) == Err::<ModuleTypeView, LoadErrorView>(
            LoadErrorView::JsonAttributeMismatch { specifier: text },
        ),
        requested is Json ==> plan_of(text, requested) == Ok::<ModuleTypeView, LoadErrorView>(
            ModuleTypeView::Json,
        ),
{
}

/// What the resolution of a reference against a referrer denotes: an
/// absolute URL stands alone; a reference with a relative prefix resolves
/// against the parsed referrer; a bare reference is rejected.
pub open spec fn resolve_import_of(reference: Seq<u8>, referrer: Seq<u8>) -> Result<
    Seq<u8>,
    ResolveErrorView,
> {
    match url_norm_of(reference) {
        Some(t) => Ok(t),
        None => {
            if is_prefix_of(("/").spec_bytes(), reference) || is_prefix_of(
                ("./").spec_bytes(),
                reference,
            ) || is_prefix_of(("../").spec_bytes(), reference) {
                match url_norm_of(referrer) {
                    Some(b) => match url_join_of(b, reference) {
                        Some(t) => Ok(t),
                        None => Err(ResolveErrorView::InvalidUrl { reference }),
                    },
                    None => Err(ResolveErrorView::InvalidUrl { reference: referrer }),
                }
            } else {
                Err(ResolveErrorView::ImportPrefixMissing { reference })
            }
        },
    }
}

/// Resolve a reference against a referrer by bare relative-URL resolution.
pub fn resolve_import(reference: &Vec<u8>, referrer: &Vec<u8>) -> (r: Result<
    Identity,
    ResolveError,
>)
    ensures
        match r {
            Ok(id) => resolve_import_of(reference@, referrer@) == Ok::<Seq<u8>, ResolveErrorView>(
                id@,
            ) && id.wf(),
            Err(e) => resolve_import_of(reference@, referrer@) == Err::<
                Seq<u8>,
                ResolveErrorView,
            >(e@),
        },
{
    match Identity::parse_bytes(reference) {
        Some(id) => Ok(id),
        None => {
            if starts_with(reference, &str_to_bytes("/")) || starts_with(
                reference,
                &str_to_bytes("./"),
            ) || starts_with(reference, &str_to_bytes("../")) {
                match Identity::parse_bytes(referrer) {
                    Some(base) => match base.join(reference) {
                        Some(id) => Ok(id),
                        None => Err(
                            ResolveError::InvalidUrl { reference: clone_bytes(reference) },
                        ),
                    },
                    None => Err(ResolveError::InvalidUrl { reference: clone_bytes(referrer) }),
                }
            } else {
                Err(
                    ResolveError::ImportPrefixMissing { reference: clone_bytes(reference) },
                )
            }
        },
    }
}

} // verus!

verus! {

#[verifier::external_type_specification]
#[verifier::external_body]
pub struct ExImportMap(import_map::ImportMap);

/// Relies on `import_map::ImportMap::resolve`: alias lookup and relative
/// resolution against the referrer; the result is a parsed URL, so its
/// serialization is canonical with a well-formed scheme.  The referrer is
/// taken strictly as a URL: in this design referrers are identities
/// already, so no path-to-URL fallback is attempted here.
#[verifier::external_body]
fn import_map_resolve_raw(im: &import_map::ImportMap, reference: &Vec<u8>, referrer: &Vec<u8>) -> (r:
    Option<Vec<u8>>)
    ensures
        r matches Some(t) ==> scheme_wf(t@) && url_norm_of(t@) == Some(t@),
{
    let reference = core::str::from_utf8(reference.as_slice()).ok()?;
    let referrer = core::str::from_utf8(referrer.as_slice()).ok()?;
    let base = url::Url::parse(referrer).ok()?;
    let u = im.resolve(reference, &base).ok()?;
    Some(u.as_str().as_bytes().to_vec())
}

/// Relies on `import_map::parse_from_json_with_options`: builds an alias
/// map from JSON against a base URL; `None` on any parse failure.  Imports
/// are never expanded: that option needs a crate feature this build leaves
/// off, under which asking for it aborts.
#[verifier::external_body]
pub fn parse_import_map_json(base: &Vec<u8>, json: &Vec<u8>) -> (r: Option<import_map::ImportMap>)
{
    let base = core::str::from_utf8(base.as_slice()).ok()?;
    let json = core::str::from_utf8(json.as_slice()).ok()?;
    let base_url = url::Url::parse(base).ok()?;
    let options = import_map::ImportMapOptions { expand_imports: false, ..Default::default() };
    Some(import_map::parse_from_json_with_options(base_url, json, options).ok()?.import_map)
}

/// The loader: a fetcher, compiler inputs, and an optional alias map.
pub struct SJSModuleLoader {
    pub file_fetcher: FileFetcher,
    pub macros: Vec<Vec<u8>>,
    pub include_paths: Vec<Vec<u8>>,
    pub import_map: Option<import_map::ImportMap>,
}

impl SJSModuleLoader {
    /// Whether an alias map is configured.
    pub open spec fn has_import_map(&self) -> bool {
        self.import_map is Some
    }

    pub fn new(
        file_fetcher: FileFetcher,
        macros: Vec<Vec<u8>>,
        include_paths: Vec<Vec<u8>>,
        import_map: Option<import_map::ImportMap>,
    ) -> (r: Self)
        ensures
            r.file_fetcher == file_fetcher,
            r.macros == macros,
            r.include_paths == include_paths,
    {
        SJSModuleLoader { file_fetcher, macros, include_paths, import_map }
    }

    /// Resolve a reference against a referrer: through the alias map where
    /// one is configured, else by bare relative-URL resolution.
    pub fn resolve(&self, specifier: &Vec<u8>, referrer: &Vec<u8>) -> (r: Result<
        Identity,
        ResolveError,
    >)
        ensures
            !self.has_import_map() ==> match r {
                Ok(id) => resolve_import_of(specifier@, referrer@) == Ok::<
                    Seq<u8>,
                    ResolveErrorView,
                >(id@) && id.wf(),
                Err(e) => resolve_import_of(specifier@, referrer@) == Err::<
                    Seq<u8>,
                    ResolveErrorView,
                >(e@),
            },
            self.has_import_map() ==> match r {
                Ok(id) => id.wf(),
                Err(e) => e@ == (ResolveErrorView::InvalidUrl { reference: specifier@ }),
            },
    {
        match &self.import_map {
            Some(im) => {
                match import_map_resolve_raw(im, specifier, referrer) {
                    Some(t) => Ok(identity_from_canonical(t)),
                    None => Err(
                        ResolveError::InvalidUrl { reference: clone_bytes(specifier) },
                    ),
                }
            },
            None => resolve_import(specifier, referrer),
        }
    }
}

} // verus!

verus! {

/// The charset parameter of a content-type value, if any.
pub open spec fn charset_of(ct: Seq<u8>) -> Option<Seq<u8>> {
    match find_pat_from(ct, ("charset=").spec_bytes(), 0) {
        Some(i) => {
            let start = i + ("charset=").spec_bytes().len();
            let end = match find_from(ct, crate::bytestr::SEMICOLON, start) {
                Some(j) => j,
                None => ct.len() as int,
            };
            Some(crate::bytestr::trim_spaces(ct.subrange(start, end)))
        },
        None => None,
    }
}

/// The media type an artifact's response headers assign it: a JSON, binary
/// or executable MIME type wins; anything else falls back to the
/// specifier's extension.
pub open spec fn file_media_of(f: crate::file_fetcher::FileView) -> ModuleTypeView {
    let by_ext = module_type_of(f.specifier, RequestedTypeView::Unspecified);
    match f.maybe_headers {
        Some(h) => if h.contains_key(("content-type").spec_bytes()) {
            let mime = crate::bytestr::trim_spaces(
                crate::bytestr::strip_from_byte(
                    h[("content-type").spec_bytes()],
                    crate::bytestr::SEMICOLON,
                ),
            );
            if mime == ("application/json").spec_bytes() {
                ModuleTypeView::Json
            } else if mime == ("application/wasm").spec_bytes() {
                ModuleTypeView::Wasm
            } else if mime == ("text/javascript").spec_bytes() || mime == (
            "application/javascript").spec_bytes() {
                ModuleTypeView::JavaScript
            } else {
                by_ext
            }
        } else {
            by_ext
        },
        None => by_ext,
    }
}

/// The charset an artifact's response headers declare, if any.
pub open spec fn file_charset_of(f: crate::file_fetcher::FileView) -> Option<Seq<u8>> {
    match f.maybe_headers {
        Some(h) => if h.contains_key(("content-type").spec_bytes()) {
            charset_of(h[("content-type").spec_bytes()])
        } else {
            None
        },
        None => None,
    }
}

/// Extract the charset parameter of a content-type value.
pub fn parse_charset(ct: &Vec<u8>) -> (r: Option<Vec<u8>>)
    ensures
        match r {
            Some(c) => charset_of(ct@) == Some(c@),
            None => charset_of(ct@) is None,
        },
{
    let pat = str_to_bytes("charset=");
    if pat.len() == 0 {
        return None;
    }
    let n = ct.len();
    match find_pattern(ct, &pat, 0) {
        Some(i) => {
            proof {
                crate::bytestr::lemma_find_pat_from_props(ct@, pat@, 0);
                assert(i + pat@.len() <= n as int);
            }
            let start = i + pat.len();
            let end = match find_byte(ct, crate::bytestr::SEMICOLON, start) {
                Some(j) => {
                    proof {
                        crate::bytestr::lemma_find_from_props(
                            ct@,
                            crate::bytestr::SEMICOLON,
                            start as int,
                        );
                    }
                    j
                },
                None => n,
            };
            let raw = bytes_range(ct, start, end);
            Some(crate::bytestr::trim_spaces_exec(&raw))
        },
        None => None,
    }
}

impl crate::file_fetcher::File {
    /// Classify this artifact's media type and charset from its response
    /// headers, falling back to the specifier's extension.
    pub fn resolve_media_type_and_charset(&self) -> (r: (ModuleType, Option<Vec<u8>>))
        requires
            self.wf(),
        ensures
            r.0@ == file_media_of(self@),
            match r.1 {
                Some(c) => file_charset_of(self@) == Some(c@),
                None => file_charset_of(self@) is None,
            },
    {
        let ct_key = str_to_bytes("content-type");
        let ct = match &self.maybe_headers {
            Some(h) => match h.get(&ct_key) {
                Some(v) => Some(clone_bytes(v)),
                None => None,
            },
            None => None,
        };
        match ct {
            Some(ct) => {
                let mime = crate::bytestr::trim_spaces_exec(
                    &crate::bytestr::strip_at_byte(&ct, crate::bytestr::SEMICOLON),
                );
                let media = if bytes_eq(&mime, &str_to_bytes("application/json")) {
                    ModuleType::Json
                } else if bytes_eq(&mime, &str_to_bytes("application/wasm")) {
                    ModuleType::Wasm
                } else if bytes_eq(&mime, &str_to_bytes("text/javascript")) || bytes_eq(
                    &mime,
                    &str_to_bytes("application/javascript"),
                ) {
                    ModuleType::JavaScript
                } else {
                    self.media_by_extension()
                };
                (media, parse_charset(&ct))
            },
            None => (self.media_by_extension(), None),
        }
    }

    /// Classification by the specifier's extension or data-URL MIME type.
    fn media_by_extension(&self) -> (r: ModuleType)
        ensures
            r@ == module_type_of(self@.specifier, RequestedTypeView::Unspecified),
    {
        let scheme = self.specifier.scheme();
        match scheme {
            Scheme::Data => {
                match parse_data_url(self.specifier.text()) {
                    Some((mime, _body)) => {
                        if bytes_eq(&mime, &str_to_bytes("application/json")) {
                            ModuleType::Json
                        } else if bytes_eq(&mime, &str_to_bytes("application/wasm")) {
                            ModuleType::Wasm
                        } else {
                            ModuleType::JavaScript
                        }
                    },
                    None => ModuleType::JavaScript,
                }
            },
            Scheme::File | Scheme::Http | Scheme::Https => {
                let path = url_path(self.specifier.text());
                match path_extension(&path) {
                    Some(e) => {
                        if bytes_eq(&e, &str_to_bytes("json")) {
                            ModuleType::Json
                        } else if bytes_eq(&e, &str_to_bytes("wasm")) {
                            ModuleType::Wasm
                        } else {
                            ModuleType::JavaScript
                        }
                    },
                    None => ModuleType::JavaScript,
                }
            },
            _ => ModuleType::JavaScript,
        }
    }
}

} // verus!
