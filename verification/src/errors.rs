//! The closed failure taxonomy of the fetch and load pipeline.

use vstd::prelude::*;

verus! {

/// Abstract value of a `FetchError`.
pub enum FetchErrorView {
    /// The identity's scheme has no dispatch arm.
    UnsupportedScheme { scheme: Seq<u8> },
    /// A remote identity was requested while remote access is disabled.
    RemoteNotAllowed { specifier: Seq<u8> },
    /// The access policy rejected the identity.
    AccessDenied { detail: Seq<u8> },
    /// Cache-only fetch found nothing usable cached.
    NotCached { specifier: Seq<u8> },
    /// The redirect counter went below zero.
    TooManyRedirects,
    /// A 404 response, or a missing local file or blob.
    NotFound { specifier: Seq<u8> },
    /// Any other 4xx response.
    ClientError { specifier: Seq<u8>, status: u16 },
    /// A connect/timeout-class or other transport failure, after the retry.
    TransportFailure { specifier: Seq<u8>, detail: Seq<u8> },
    /// The inline payload of a data URL could not be parsed.
    InvalidDataUrl { specifier: Seq<u8> },
    /// A filesystem read or write failed, with the path attached.
    IoFailure { detail: Seq<u8> },
}

/// Why a fetch failed; each variant names what the caller can act on.
#[derive(Debug, PartialEq, Eq)]
pub enum FetchError {
    UnsupportedScheme { scheme: Vec<u8> },
    RemoteNotAllowed { specifier: Vec<u8> },
    AccessDenied { detail: Vec<u8> },
    NotCached { specifier: Vec<u8> },
    TooManyRedirects,
    NotFound { specifier: Vec<u8> },
    ClientError { specifier: Vec<u8>, status: u16 },
    TransportFailure { specifier: Vec<u8>, detail: Vec<u8> },
    InvalidDataUrl { specifier: Vec<u8> },
    IoFailure { detail: Vec<u8> },
}

impl View for FetchError {
    type V = FetchErrorView;

    open spec fn view(&self) -> FetchErrorView {
        match self {
            FetchError::UnsupportedScheme { scheme } => FetchErrorView::UnsupportedScheme {
                scheme: scheme@,
            },
            FetchError::RemoteNotAllowed { specifier } => FetchErrorView::RemoteNotAllowed {
                specifier: specifier@,
            },
            FetchError::AccessDenied { detail } => FetchErrorView::AccessDenied {
                detail: detail@,
            },
            FetchError::NotCached { specifier } => FetchErrorView::NotCached {
                specifier: specifier@,
            },
            FetchError::TooManyRedirects => FetchErrorView::TooManyRedirects,
            FetchError::NotFound { specifier } => FetchErrorView::NotFound {
                specifier: specifier@,
            },
            FetchError::ClientError { specifier, status } => FetchErrorView::ClientError {
                specifier: specifier@,
                status: *status,
            },
            FetchError::TransportFailure { specifier, detail } => FetchErrorView::TransportFailure {
                specifier: specifier@,
                detail: detail@,
            },
            FetchError::InvalidDataUrl { specifier } => FetchErrorView::InvalidDataUrl {
                specifier: specifier@,
            },
            FetchError::IoFailure { detail } => FetchErrorView::IoFailure { detail: detail@ },
        }
    }
}

/// Why a reference failed to resolve.
pub enum ResolveErrorView {
    /// A bare specifier with no alias and no relative prefix.
    ImportPrefixMissing { reference: Seq<u8> },
    /// Neither an absolute URL nor resolvable against the base.
    InvalidUrl { reference: Seq<u8> },
}

#[derive(Debug, PartialEq, Eq)]
pub enum ResolveError {
    ImportPrefixMissing { reference: Vec<u8> },
    InvalidUrl { reference: Vec<u8> },
}

impl View for ResolveError {
    type V = ResolveErrorView;

    open spec fn view(&self) -> ResolveErrorView {
        match self {
            ResolveError::ImportPrefixMissing { reference } => {
                ResolveErrorView::ImportPrefixMissing { reference: reference@ }
            },
            ResolveError::InvalidUrl { reference } => ResolveErrorView::InvalidUrl {
                reference: reference@,
            },
        }
    }
}

/// Abstract value of a `LoadError`.
pub enum LoadErrorView {
    /// The underlying fetch failed.
    Fetch(FetchErrorView),
    /// A JSON-classified module was imported without the JSON type hint.
    JsonAttributeMismatch { specifier: Seq<u8> },
    /// The compiler collaborator returned nothing.
    CompileFailed { specifier: Seq<u8> },
}

/// Why a module load failed.
#[derive(Debug, PartialEq, Eq)]
pub enum LoadError {
    Fetch(FetchError),
    JsonAttributeMismatch { specifier: Vec<u8> },
    CompileFailed { specifier: Vec<u8> },
}

impl View for LoadError {
    type V = LoadErrorView;

    open spec fn view(&self) -> LoadErrorView {
        match self {
            LoadError::Fetch(e) => LoadErrorView::Fetch(e@),
            LoadError::JsonAttributeMismatch { specifier } => {
                LoadErrorView::JsonAttributeMismatch { specifier: specifier@ }
            },
            LoadError::CompileFailed { specifier } => LoadErrorView::CompileFailed {
                specifier: specifier@,
            },
        }
    }
}

} // verus!
