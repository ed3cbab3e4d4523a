//! Self-signed X.509 certificate generation and certificate decoding.
//!
//! Two independent, stateless components:
//! - [`generate::GenCommand`] builds signing parameters from a
//!   [`request::CertificateRequest`] and produces a self-signed certificate
//!   and private key, both PEM-encoded.
//! - [`parse::ParseCommand`] decodes a byte buffer holding one or more
//!   certificates (PEM or raw DER) into structured records with typed
//!   extension payloads.

pub mod errors;
pub mod hexfmt;
pub mod keyusage;
pub mod request;
pub mod generate;
pub mod parse;
