//! Resource identities: canonical absolute URLs, the universal cache key.
//!
//! An identity's text is kept in its serialized form, as produced by the
//! `url` crate's parser.  Everything the core logic reads off an identity
//! (scheme, fragment and query positions, path prefixes) is computed here in
//! verified code over the bytes; only parsing, joining and file-path
//! conversion are delegated to the `url` crate.

use vstd::prelude::*;
use vstd::string::StringSliceAdditionalSpecFns;

use crate::bytestr::{bytes_eq, bytes_range, clone_bytes, find_byte, find_from, str_to_bytes,
    COLON};

verus! {

/// What `url::Url::parse` returns for the given input bytes: `None` where
/// the input is not valid UTF-8 or not an absolute URL, otherwise the
/// serialization of the parsed URL.
pub uninterp spec fn url_norm_of(s: Seq<u8>) -> Option<Seq<u8>>;

/// What `url::Url::join` returns: the serialization of `rel` resolved
/// against the absolute URL `base`, or `None` where that fails.
pub uninterp spec fn url_join_of(base: Seq<u8>, rel: Seq<u8>) -> Option<Seq<u8>>;

/// The canonical serialization of the `file:` URL that
/// `url::Url::from_file_path` builds for the given absolute filesystem
/// path: what re-parsing that URL's text yields.  `from_file_path` itself
/// keeps `.` and `..` path components verbatim; the re-parse resolves
/// them, which is what makes the result an identity.
pub uninterp spec fn url_from_path_of(p: Seq<u8>) -> Option<Seq<u8>>;

/// Bytes allowed in a URL scheme after the first: ASCII lower-case letters,
/// digits, `+`, `-` and `.`.  The parser lower-cases the scheme, so no
/// upper-case letters occur in serialized form.
pub open spec fn is_scheme_byte(b: u8) -> bool {
    (97 <= b <= 122) || (48 <= b <= 57) || b == 43 || b == 45 || b == 46
}

/// The serialized text starts with a non-empty scheme followed by a colon.
pub open spec fn scheme_wf(s: Seq<u8>) -> bool {
    match find_from(s, COLON, 0) {
        Some(i) => 1 <= i && 97 <= s[0] <= 122 && forall|j: int|
            0 <= j < i ==> is_scheme_byte(#[trigger] s[j]),
        None => false,
    }
}

/// The scheme part of serialized URL text: the bytes before the first colon.
pub open spec fn scheme_seq_of(s: Seq<u8>) -> Seq<u8> {
    match find_from(s, COLON, 0) {
        Some(i) => s.subrange(0, i),
        None => Seq::empty(),
    }
}

/// Relies on `url::Url::parse` and `url::Url::as_str`: parsing yields the
/// canonical serialization; the serialized scheme is non-empty, lower-cased
/// ASCII and ends at the first colon; and re-parsing a serialization yields
/// it unchanged.
#[verifier::external_body]
fn url_normalize(s: &Vec<u8>) -> (r: Option<Vec<u8>>)
    ensures
        (r is Some) == (url_norm_of(s@) is Some),
        r matches Some(t) ==> Some(t@) == url_norm_of(s@) && scheme_wf(t@) && url_norm_of(t@)
            == Some(t@),
{
    let st = core::str::from_utf8(s.as_slice()).ok()?;
    let u = url::Url::parse(st).ok()?;
    Some(u.as_str().as_bytes().to_vec())
}

/// Relies on `url::Url::join`: resolves a reference against an absolute
/// base, with the same serialization guarantees as parsing.
#[verifier::external_body]
fn url_join_bytes(base: &Vec<u8>, rel: &Vec<u8>) -> (r: Option<Vec<u8>>)
    ensures
        (r is Some) == (url_join_of(base@, rel@) is Some),
        r matches Some(t) ==> Some(t@) == url_join_of(base@, rel@) && scheme_wf(t@) && url_norm_of(
            t@,
        ) == Some(t@),
{
    let b = core::str::from_utf8(base.as_slice()).ok()?;
    let r = core::str::from_utf8(rel.as_slice()).ok()?;
    let u = url::Url::parse(b).ok()?.join(r).ok()?;
    Some(u.as_str().as_bytes().to_vec())
}

/// Relies on `url::Url::from_file_path` followed by `url::Url::parse` of
/// its serialization: `from_file_path` alone keeps `.` and `..`
/// components, so its output is re-parsed, and the parse's serialization —
/// canonical like every parse result — is returned.
#[verifier::external_body]
fn url_from_fs_path(p: &Vec<u8>) -> (r: Option<Vec<u8>>)
    ensures
        (r is Some) == (url_from_path_of(p@) is Some),
        r matches Some(t) ==> Some(t@) == url_from_path_of(p@) && scheme_wf(t@) && url_norm_of(t@)
            == Some(t@),
{
    let st = core::str::from_utf8(p.as_slice()).ok()?;
    let raw = url::Url::from_file_path(st).ok()?;
    let u = url::Url::parse(raw.as_str()).ok()?;
    Some(u.as_str().as_bytes().to_vec())
}

/// The closed set of origin schemes the fetcher dispatches over.
#[derive(Clone, Copy, PartialEq, Eq, Structural, Debug)]
pub enum Scheme {
    Data,
    Blob,
    File,
    Http,
    Https,
    Sjs,
    Other,
}

/// Scheme classification of serialized URL text.
pub open spec fn scheme_class_of(text: Seq<u8>) -> Scheme {
    let sch = scheme_seq_of(text);
    if sch =~= ("data").spec_bytes() {
        Scheme::Data
    } else if sch =~= ("blob").spec_bytes() {
        Scheme::Blob
    } else if sch =~= ("file").spec_bytes() {
        Scheme::File
    } else if sch =~= ("http").spec_bytes() {
        Scheme::Http
    } else if sch =~= ("https").spec_bytes() {
        Scheme::Https
    } else if sch =~= ("sjs").spec_bytes() {
        Scheme::Sjs
    } else {
        Scheme::Other
    }
}

/// The scheme part of the text, as a fresh vector.
pub fn scheme_bytes(text: &Vec<u8>) -> (r: Vec<u8>)
    ensures
        r@ == scheme_seq_of(text@),
{
    match find_byte(text, COLON, 0) {
        Some(i) => {
            proof {
                crate::bytestr::lemma_find_from_props(text@, COLON, 0);
            }
            bytes_range(text, 0, i)
        },
        None => {
            let r: Vec<u8> = Vec::new();
            proof {
                assert(r@ =~= scheme_seq_of(text@));
            }
            r
        },
    }
}

/// Classify the scheme of serialized URL text.
pub fn classify_scheme(text: &Vec<u8>) -> (r: Scheme)
    ensures
        r == scheme_class_of(text@),
{
    let sch = scheme_bytes(text);
    if bytes_eq(&sch, &str_to_bytes("data")) {
        Scheme::Data
    } else if bytes_eq(&sch, &str_to_bytes("blob")) {
        Scheme::Blob
    } else if bytes_eq(&sch, &str_to_bytes("file")) {
        Scheme::File
    } else if bytes_eq(&sch, &str_to_bytes("http")) {
        Scheme::Http
    } else if bytes_eq(&sch, &str_to_bytes("https")) {
        Scheme::Https
    } else if bytes_eq(&sch, &str_to_bytes("sjs")) {
        Scheme::Sjs
    } else {
        Scheme::Other
    }
}

/// A normalized absolute reference: the universal key for caching and
/// comparison.  Equality is exact byte equality of the serialized text.
pub struct Identity {
    text: Vec<u8>,
}

impl View for Identity {
    type V = Seq<u8>;

    closed spec fn view(&self) -> Seq<u8> {
        self.text@
    }
}

impl Identity {
    /// Identities are canonical: re-parsing the text yields it unchanged,
    /// and the text starts with a well-formed scheme.
    pub open spec fn wf(&self) -> bool {
        url_norm_of(self@) == Some(self@) && scheme_wf(self@)
    }

    /// Parse an absolute URL from bytes into a canonical identity.
    pub fn parse_bytes(s: &Vec<u8>) -> (r: Option<Identity>)
        ensures
            (r is Some) == (url_norm_of(s@) is Some),
            r matches Some(id) ==> Some(id@) == url_norm_of(s@) && id.wf(),
    {
        match url_normalize(s) {
            Some(t) => Some(Identity { text: t }),
            None => None,
        }
    }

    /// Parse an absolute URL from a string slice.
    pub fn parse(s: &str) -> (r: Option<Identity>)
        ensures
            (r is Some) == (url_norm_of(s.spec_bytes()) is Some),
            r matches Some(id) ==> Some(id@) == url_norm_of(s.spec_bytes()) && id.wf(),
    {
        let v = str_to_bytes(s);
        Identity::parse_bytes(&v)
    }

    /// Resolve a (possibly relative) reference against this identity.
    pub fn join(&self, rel: &Vec<u8>) -> (r: Option<Identity>)
        ensures
            (r is Some) == (url_join_of(self@, rel@) is Some),
            r matches Some(id) ==> Some(id@) == url_join_of(self@, rel@) && id.wf(),
    {
        match url_join_bytes(&self.text, rel) {
            Some(t) => Some(Identity { text: t }),
            None => None,
        }
    }

    /// An identity for an absolute filesystem path, as a `file:` URL.
    pub fn from_file_path(p: &Vec<u8>) -> (r: Option<Identity>)
        ensures
            (r is Some) == (url_from_path_of(p@) is Some),
            r matches Some(id) ==> Some(id@) == url_from_path_of(p@) && id.wf(),
    {
        match url_from_fs_path(p) {
            Some(t) => Some(Identity { text: t }),
            None => None,
        }
    }

    /// The serialized text.
    pub fn text(&self) -> (r: &Vec<u8>)
        ensures
            r@ == self@,
    {
        &self.text
    }

    /// The scheme classification of this identity.
    pub fn scheme(&self) -> (r: Scheme)
        ensures
            r == scheme_class_of(self@),
    {
        classify_scheme(&self.text)
    }

    /// The scheme text, for error messages.
    pub fn scheme_text(&self) -> (r: Vec<u8>)
        ensures
            r@ == scheme_seq_of(self@),
    {
        scheme_bytes(&self.text)
    }

    /// Exact equality of identities.
    pub fn same_as(&self, other: &Identity) -> (r: bool)
        ensures
            r == (self@ == other@),
    {
        bytes_eq(&self.text, &other.text)
    }
}

/// Wrap text already known canonical (as trusted resolvers return it) as
/// an identity.
pub(crate) fn identity_from_canonical(text: Vec<u8>) -> (r: Identity)
    requires
        url_norm_of(text@) == Some(text@),
        scheme_wf(text@),
    ensures
        r@ == text@,
        r.wf(),
{
    Identity { text }
}

impl Clone for Identity {
    fn clone(&self) -> (r: Self)
        ensures
            r@ == self@,
    {
        Identity { text: clone_bytes(&self.text) }
    }
}

} // verus!
