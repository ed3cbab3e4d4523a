//! The policy inputs of a generation call.

use vstd::prelude::*;
use crate::keyusage::KeyUsageFlag;

verus! {

/// Unix timestamp of 1975-01-01T00:00:00Z, the default start of the
/// validity window.
pub const DEFAULT_NOT_BEFORE: i64 = 157766400;

/// Unix timestamp of 4096-01-01T00:00:00Z, the default end of the
/// validity window.
pub const DEFAULT_NOT_AFTER: i64 = 67090118400;

/// The default CA constraint: not a CA.
pub const DEFAULT_CA_CONSTRAINT: i64 = -1;

/// What a generation call is asked to certify.
///
/// The validity bounds are passed through verbatim: nothing checks that
/// `not_before` precedes `not_after`, so an inverted or empty window is
/// signed as given.
#[derive(Debug, Clone, PartialEq, Eq)]
pub struct CertificateRequest {
    /// Subject alternative names; each must be a DNS name or an IP
    /// address for generation to succeed.
    pub subject_alt_names: Vec<String>,
    /// The single Common-Name attribute of the subject and issuer.
    pub common_name: String,
    /// Start of the validity window, as a Unix timestamp.
    pub not_before: i64,
    /// End of the validity window, as a Unix timestamp.
    pub not_after: i64,
    /// `0` asks for an unconstrained CA, a positive value for a CA
    /// with that path length (truncated to a byte), and any negative
    /// value for an end-entity certificate.
    pub ca_constraint: i64,
    /// The key-usage purposes asserted by the certificate; empty for
    /// no key-usage content.
    pub key_usages: Vec<KeyUsageFlag>,
}

impl CertificateRequest {
    /// A request for the given names with every option at its default:
    /// a fixed common name, the 1975/4096 validity window, no CA role
    /// and no key usages.
    pub fn new(subject_alt_names: Vec<String>) -> (r: Self)
        ensures
            r.subject_alt_names == subject_alt_names,
            r.common_name@ == "nu_plugin_x509 self signed crt"@,
            r.not_before == DEFAULT_NOT_BEFORE,
            r.not_after == DEFAULT_NOT_AFTER,
            r.ca_constraint == DEFAULT_CA_CONSTRAINT,
            r.key_usages@ =~= Seq::<KeyUsageFlag>::empty(),
    {
        CertificateRequest {
            subject_alt_names,
            common_name: "nu_plugin_x509 self signed crt".to_owned(),
            not_before: DEFAULT_NOT_BEFORE,
            not_after: DEFAULT_NOT_AFTER,
            ca_constraint: DEFAULT_CA_CONSTRAINT,
            key_usages: Vec::new(),
        }
    }
}

/// The CA role encoded by a request's `ca_constraint`.
#[derive(Debug, Clone, Copy, PartialEq, Eq, Structural)]
pub enum CaMode {
    /// An end-entity certificate: no basic-constraints CA assertion.
    NotCa,
    /// A CA without a path-length constraint.
    Unconstrained,
    /// A CA with the given path-length constraint.
    Constrained(u8),
}

/// The CA role of a constraint value: `0` is an unconstrained CA, a
/// positive value a CA constrained to the value's low byte, and any
/// negative value no CA at all.
pub open spec fn spec_ca_mode(c: i64) -> CaMode {
    if c == 0 {
        CaMode::Unconstrained
    } else if c > 0 {
        CaMode::Constrained((c % 256) as u8)
    } else {
        CaMode::NotCa
    }
}

/// Maps a request's `ca_constraint` to the CA role it asks for.
pub fn ca_mode(c: i64) -> (r: CaMode)
    ensures
        r == spec_ca_mode(c),
{
    if c == 0 {
        CaMode::Unconstrained
    } else if c > 0 {
        let low: i64 = c % 256;
        CaMode::Constrained(low as u8)
    } else {
        CaMode::NotCa
    }
}

} // verus!
