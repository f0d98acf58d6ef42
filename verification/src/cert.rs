//! Certificate-authority configuration data.
//!
//! Loading the actual root certificate store is TLS provisioning and lives
//! with the driver; the configuration values and the loading failures are
//! modelled here.

use vstd::prelude::*;

verus! {

/// Where extra certificate-authority data comes from.
#[derive(Clone, Debug, PartialEq, Eq)]
pub enum CaData {
    /// The string is a file path.
    File(String),
    /// Raw certificate bytes, for embedded use.
    Bytes(Vec<u8>),
}

/// Why the root certificate store could not be loaded.
#[derive(Clone, Debug, PartialEq, Eq)]
pub enum RootCertStoreLoadError {
    /// A store name other than the allowed `system` and `mozilla`.
    UnknownStore(String),
    /// A PEM file whose certificates could not be added.
    FailedAddPemFile(String),
    /// The CA file could not be opened.
    CaFileOpenError(String),
}

} // verus!
