#![allow(unused_imports)]
use vstd::prelude::*;
use vstd::string::StringSliceAdditionalSpecFns;

pub mod assoc;
pub mod auth_tokens;
pub mod bytestr;
pub mod http_cache;
pub mod cache_env;
pub mod cache_settings;
pub mod cert;
pub mod checksum;
pub mod errors;
pub mod file_fetcher;
pub mod hash;
pub mod headers;
pub mod transport;
pub mod ident;
pub mod inline_data;
pub mod laws;
pub mod module_loader;
pub mod path;
pub mod path_util;

verus! {

/// Version of this library, matching the package manifest.
pub fn version() -> (r: &'static str)
    ensures
        r@ == "0.1.0"@,
{
    "0.1.0"
}

/// User-agent string presented to remote servers.
pub fn get_user_agent() -> (r: &'static str)
    ensures
        r@ == "sjs/0.1.0"@,
{
    "sjs/0.1.0"
}


/// Bytes of a character sequence under UTF-8.
pub open spec fn str_bytes_of(s: Seq<char>) -> Seq<u8> {
    vstd::utf8::encode_utf8(s)
}

/// Where the program to run comes from.
#[derive(Clone, Debug, PartialEq, Eq)]
pub enum ScriptSource {
    /// A filesystem path.
    File(String),
    /// Program text handed in directly, as from standard input.
    Text(String),
    /// An absolute URL.
    URL(String),
    /// A string to be taken as a URL when it parses as one, else as a
    /// path.
    FileOrURL(String),
}

/// Inspector configuration at startup.
pub struct InspectorOptions {
    pub port: Option<u16>,
    pub wait: bool,
}

/// What resolving a possibly-URL string denotes: the parsed URL, else the
/// `file:` URL of the lexically absolutized path.
pub open spec fn resolve_maybe_url_of(s: Seq<u8>, cwd: Seq<u8>) -> Option<Seq<u8>> {
    match crate::ident::url_norm_of(s) {
        Some(t) => Some(t),
        None => crate::ident::url_from_path_of(crate::path::absolute_of(s, cwd)),
    }
}

/// Convert a string that could name a file path or a remote resource into
/// an identity, against the given absolute working directory.
pub fn resolve_maybe_url(s: &Vec<u8>, cwd: &Vec<u8>) -> (r: Result<
    crate::ident::Identity,
    crate::errors::ResolveError,
>)
    ensures
        match r {
            Ok(id) => resolve_maybe_url_of(s@, cwd@) == Some(id@) && id.wf(),
            Err(e) => resolve_maybe_url_of(s@, cwd@) is None && e@ == (
            crate::errors::ResolveErrorView::InvalidUrl { reference: s@ }),
        },
{
    match crate::ident::Identity::parse_bytes(s) {
        Some(id) => Ok(id),
        None => {
            let abs = crate::path::absolute_path(s, cwd);
            match crate::ident::Identity::from_file_path(&abs) {
                Some(id) => Ok(id),
                None => Err(
                    crate::errors::ResolveError::InvalidUrl {
                        reference: crate::bytestr::clone_bytes(s),
                    },
                ),
            }
        },
    }
}

/// The reserved in-process identity for inline program text.
pub fn text_source_identity() -> (r: Option<crate::ident::Identity>)
    ensures
        match r {
            Some(id) => crate::ident::url_norm_of(("sjs://text").spec_bytes()) == Some(id@)
                && id.wf(),
            None => crate::ident::url_norm_of(("sjs://text").spec_bytes()) is None,
        },
{
    crate::ident::Identity::parse("sjs://text")
}

/// Resolve the program source to the identity the engine starts from:
/// inline text gets the reserved identity, a path becomes a `file:` URL of
/// its absolutized form, a URL is parsed, and the autodetecting form tries
/// the URL reading first.
pub fn resolve_script_source(source: &ScriptSource, cwd: &Vec<u8>) -> (r: Result<
    crate::ident::Identity,
    crate::errors::ResolveError,
>)
    ensures
        source matches ScriptSource::Text(_) ==> match r {
            Ok(id) => crate::ident::url_norm_of(("sjs://text").spec_bytes()) == Some(id@),
            Err(e) => crate::ident::url_norm_of(("sjs://text").spec_bytes()) is None,
        },
        source matches ScriptSource::File(p) ==> match r {
            Ok(id) => crate::ident::url_from_path_of(
                crate::path::absolute_of(str_bytes_of(p@), cwd@),
            ) == Some(id@),
            Err(e) => crate::ident::url_from_path_of(
                crate::path::absolute_of(str_bytes_of(p@), cwd@),
            ) is None,
        },
        source matches ScriptSource::URL(u) ==> match r {
            Ok(id) => crate::ident::url_norm_of(str_bytes_of(u@)) == Some(id@),
            Err(e) => crate::ident::url_norm_of(str_bytes_of(u@)) is None,
        },
        source matches ScriptSource::FileOrURL(su) ==> match r {
            Ok(id) => resolve_maybe_url_of(str_bytes_of(su@), cwd@) == Some(id@),
            Err(e) => resolve_maybe_url_of(str_bytes_of(su@), cwd@) is None,
        },
        r matches Ok(id) ==> id.wf(),
{
    match source {
        ScriptSource::Text(_) => {
            match text_source_identity() {
                Some(id) => Ok(id),
                None => Err(
                    crate::errors::ResolveError::InvalidUrl {
                        reference: crate::bytestr::str_to_bytes("sjs://text"),
                    },
                ),
            }
        },
        ScriptSource::File(p) => {
            let pv = crate::bytestr::str_to_bytes(p.as_str());
            let abs = crate::path::absolute_path(&pv, cwd);
            match crate::ident::Identity::from_file_path(&abs) {
                Some(id) => Ok(id),
                None => Err(crate::errors::ResolveError::InvalidUrl { reference: pv }),
            }
        },
        ScriptSource::URL(u) => {
            let uv = crate::bytestr::str_to_bytes(u.as_str());
            match crate::ident::Identity::parse_bytes(&uv) {
                Some(id) => Ok(id),
                None => Err(crate::errors::ResolveError::InvalidUrl { reference: uv }),
            }
        },
        ScriptSource::FileOrURL(su) => {
            let sv = crate::bytestr::str_to_bytes(su.as_str());
            resolve_maybe_url(&sv, cwd)
        },
    }
}

/// The first argument the program sees: the URL it was started from, a
/// path made absolute, or nothing for inline text.
pub fn script_source_arg0(source: &ScriptSource, cwd: &Vec<u8>) -> (r: Vec<u8>)
    ensures
        source matches ScriptSource::Text(_) ==> r@ == Seq::<u8>::empty(),
        source matches ScriptSource::File(p) ==> r@ == crate::path::absolute_of(
            str_bytes_of(p@),
            cwd@,
        ),
        source matches ScriptSource::URL(u) ==> r@ == str_bytes_of(u@),
        source matches ScriptSource::FileOrURL(su) ==> r@ == (
        if crate::ident::url_norm_of(str_bytes_of(su@)) is Some {
            str_bytes_of(su@)
        } else {
            crate::path::absolute_of(str_bytes_of(su@), cwd@)
        }),
{
    match source {
        ScriptSource::Text(_) => Vec::new(),
        ScriptSource::File(p) => {
            let pv = crate::bytestr::str_to_bytes(p.as_str());
            crate::path::absolute_path(&pv, cwd)
        },
        ScriptSource::URL(u) => crate::bytestr::str_to_bytes(u.as_str()),
        ScriptSource::FileOrURL(su) => {
            let sv = crate::bytestr::str_to_bytes(su.as_str());
            match crate::ident::Identity::parse_bytes(&sv) {
                Some(_) => sv,
                None => crate::path::absolute_path(&sv, cwd),
            }
        },
    }
}

} // verus!
