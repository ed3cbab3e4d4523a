//! Error type shared by certificate generation and parsing.

use vstd::prelude::*;

verus! {

/// Why a generate or parse call failed. Every variant carries a
/// human-readable message describing the underlying cause.
#[derive(Debug, Clone, PartialEq, Eq)]
pub enum CryptoError {
    /// A supplied subject-alternative name does not parse as a valid
    /// DNS name or IP address.
    InvalidSubjectAltName(String),
    /// The signing primitive rejected the assembled parameters or could
    /// not produce a key pair.
    SigningFailed(String),
    /// The byte buffer (or a PEM block's payload) is not a well-formed
    /// certificate structure.
    MalformedCertificate(String),
    /// A supplied timestamp cannot be represented in the signing
    /// primitive's time type.
    TimestampConversionFailed(String),
}

impl CryptoError {
    /// The human-readable message carried by this error.
    pub fn message(&self) -> (r: &String)
        ensures
            r == self.spec_message(),
    {
        match self {
            CryptoError::InvalidSubjectAltName(m) => m,
            CryptoError::SigningFailed(m) => m,
            CryptoError::MalformedCertificate(m) => m,
            CryptoError::TimestampConversionFailed(m) => m,
        }
    }

    /// The message of each variant.
    pub open spec fn spec_message(&self) -> String {
        match self {
            CryptoError::InvalidSubjectAltName(m) => *m,
            CryptoError::SigningFailed(m) => *m,
            CryptoError::MalformedCertificate(m) => *m,
            CryptoError::TimestampConversionFailed(m) => *m,
        }
    }
}

} // verus!
