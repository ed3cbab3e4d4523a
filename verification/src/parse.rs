//! Certificate decoding.
//!
//! A byte buffer is interpreted as one or more PEM blocks; every block
//! whose payload parses as a certificate is collected, and if none
//! does, the whole buffer is treated as a single raw DER certificate.
//! Each certificate decodes to a [`ParsedCertificate`] with its
//! extensions dispatched into typed payloads; unrecognized extension
//! types fall back to a literal dump under the name `"Other"`. The DER
//! traversal is done by `x509_parser` behind the trusted wrappers
//! below; every rendering and dispatch decision is made here. The two
//! deterministic decoder judgments — which PEM payloads a buffer holds,
//! and whether bytes parse as a certificate — are named by
//! [`spec_pem_payloads`] and [`spec_der_is_cert`], so the parser's
//! contract states exactly when it succeeds and how many records come
//! back.

use vstd::prelude::*;
use vstd::slice::slice_to_vec;
use x509_parser::prelude::FromDer;
use crate::errors::CryptoError;
use crate::hexfmt::{serial_hex, spec_hex_colon, spec_hex_grouped, spec_hex_plain, spec_serial_hex,
    to_hex_colon, to_hex_grouped, to_hex_plain};

verus! {

/// The nine key-usage booleans of a decoded KeyUsage extension.
#[derive(Debug, Clone, PartialEq, Eq)]
pub struct KeyUsageRecord {
    pub digital_signature: bool,
    pub content_commitment: bool,
    pub key_encipherment: bool,
    pub data_encipherment: bool,
    pub key_agreement: bool,
    pub key_cert_sign: bool,
    pub crl_sign: bool,
    pub encipher_only: bool,
    pub decipher_only: bool,
}

/// The purposes of a decoded ExtendedKeyUsage extension. Unrecognized
/// purposes land in `other` as dotted-decimal OID strings.
#[derive(Debug, Clone, PartialEq, Eq)]
pub struct ExtendedKeyUsageRecord {
    pub any: bool,
    pub server_auth: bool,
    pub client_auth: bool,
    pub code_signing: bool,
    pub email_protection: bool,
    pub time_stamping: bool,
    pub ocscp_signing: bool,
    pub other: Vec<String>,
}

/// A decoded AuthorityKeyIdentifier extension. The key identifier is
/// colon-joined lowercase hex, the serial plain lowercase hex; both are
/// empty when absent.
#[derive(Debug, Clone, PartialEq, Eq)]
pub struct AuthorityKeyIdentifierRecord {
    pub key_identifier: String,
    pub authority_cert_issuer: Vec<String>,
    pub authority_cert_serial: String,
}

/// The typed payload of one extension: a closed set of decoded shapes
/// with a deliberate literal fallback for every other extension type.
#[derive(Debug, Clone, PartialEq, Eq)]
pub enum ExtensionValue {
    BasicConstraints { ca: bool, path_len_constraint: i64 },
    KeyUsage(KeyUsageRecord),
    ExtendedKeyUsage(ExtendedKeyUsageRecord),
    SubjectAlternativeName(Vec<String>),
    AuthorityKeyIdentifier(AuthorityKeyIdentifierRecord),
    SubjectKeyIdentifier(String),
    Other(String),
}

/// One extension of a certificate: its OID in dotted-decimal form, the
/// name of its decoded shape, its criticality and its typed payload.
#[derive(Debug, Clone, PartialEq, Eq)]
pub struct ExtensionRecord {
    pub oid: String,
    pub name: String,
    pub critical: bool,
    pub value: ExtensionValue,
}

/// One decoded certificate, fields rendered as the records present
/// them: the serial as minimal lowercase hex, public key and signature
/// as colon-grouped line-wrapped hex, names in their standard string
/// form, validity bounds as Unix timestamps, and algorithms resolved
/// to registry short names (`"Unknown"` when unresolvable).
#[derive(Debug, Clone, PartialEq, Eq)]
pub struct ParsedCertificate {
    pub version: i64,
    pub serial: String,
    pub issuer: String,
    pub not_before: i64,
    pub not_after: i64,
    pub subject: String,
    pub subject_public_key_algorithm: String,
    pub subject_public_key_value: String,
    pub extensions: Vec<ExtensionRecord>,
    pub signature_algorithm: String,
    pub signature_value: String,
}

/// The payloads of the PEM blocks a buffer holds, in input order. A
/// function of the bytes alone; what it holds is fixed by the ensures
/// of `pem_block_contents` below.
pub uninterp spec fn spec_pem_payloads(data: Seq<u8>) -> Seq<Seq<u8>>;

/// Whether a byte string parses as a DER certificate. A function of
/// the bytes alone; what it holds is fixed by the ensures of
/// `cert_from_der` below.
pub uninterp spec fn spec_der_is_cert(der: Seq<u8>) -> bool;

/// The payloads of a list that parse as certificates, in order.
pub open spec fn spec_cert_filter(payloads: Seq<Seq<u8>>) -> Seq<Seq<u8>> {
    payloads.filter(|d: Seq<u8>| spec_der_is_cert(d))
}

/// The PEM payloads of a buffer that parse as certificates, in input
/// order.
pub open spec fn spec_cert_payloads(data: Seq<u8>) -> Seq<Seq<u8>> {
    spec_cert_filter(spec_pem_payloads(data))
}

/// The payloads a parse call decodes: the certificate-bearing PEM
/// payloads, or the whole buffer as a single raw DER payload when no
/// PEM block yields a certificate.
pub open spec fn spec_selected_payloads(data: Seq<u8>) -> Seq<Seq<u8>> {
    if spec_cert_payloads(data).len() > 0 {
        spec_cert_payloads(data)
    } else {
        seq![data]
    }
}

/// The views of a list of byte vectors.
spec fn payload_views(ds: Seq<Vec<u8>>) -> Seq<Seq<u8>> {
    ds.map_values(|d: Vec<u8>| d@)
}

/// Filtering an empty payload list keeps nothing.
proof fn lemma_cert_filter_empty()
    ensures
        spec_cert_filter(Seq::<Seq<u8>>::empty()) == Seq::<Seq<u8>>::empty(),
{
    reveal_with_fuel(Seq::<Seq<u8>>::filter, 1);
}

/// Filtering keeps an appended payload exactly when it parses as a
/// certificate.
proof fn lemma_cert_filter_push(s: Seq<Seq<u8>>, e: Seq<u8>)
    ensures
        spec_cert_filter(s.push(e)) == (if spec_der_is_cert(e) {
            spec_cert_filter(s).push(e)
        } else {
            spec_cert_filter(s)
        }),
{
    reveal_with_fuel(Seq::<Seq<u8>>::filter, 1);
    assert(s.push(e).drop_last() =~= s);
    assert(s.push(e).last() == e);
}

/// The name under which each payload shape is reported.
pub open spec fn spec_type_name(v: ExtensionValue) -> Seq<char> {
    match v {
        ExtensionValue::BasicConstraints { .. } => "BasicConstraints"@,
        ExtensionValue::KeyUsage(_) => "KeyUsage"@,
        ExtensionValue::ExtendedKeyUsage(_) => "ExtendedKeyUsage"@,
        ExtensionValue::SubjectAlternativeName(_) => "SubjectAlternativeName"@,
        ExtensionValue::AuthorityKeyIdentifier(_) => "AuthorityKeyIdentifier"@,
        ExtensionValue::SubjectKeyIdentifier(_) => "SubjectKeyIdentifier"@,
        ExtensionValue::Other(_) => "Other"@,
    }
}

/// The key-usage booleans encoded in a KeyUsage bit string, bit `k` of
/// the flags giving the `k`-th boolean.
pub open spec fn spec_key_usage_record(flags: u16) -> KeyUsageRecord {
    KeyUsageRecord {
        digital_signature: flags & 1 == 1,
        content_commitment: (flags >> 1) & 1 == 1,
        key_encipherment: (flags >> 2) & 1 == 1,
        data_encipherment: (flags >> 3) & 1 == 1,
        key_agreement: (flags >> 4) & 1 == 1,
        key_cert_sign: (flags >> 5) & 1 == 1,
        crl_sign: (flags >> 6) & 1 == 1,
        encipher_only: (flags >> 7) & 1 == 1,
        decipher_only: (flags >> 8) & 1 == 1,
    }
}

/// The reported path-length constraint: the decoded value, or 0 when
/// the certificate carries none.
pub open spec fn spec_path_len(p: Option<u32>) -> i64 {
    match p {
        Some(v) => v as i64,
        None => 0,
    }
}

/// What holds of every typed payload this module builds.
pub open spec fn spec_ext_value_wf(v: ExtensionValue) -> bool {
    match v {
        ExtensionValue::BasicConstraints { ca, path_len_constraint } => path_len_constraint >= 0,
        ExtensionValue::SubjectKeyIdentifier(h) => exists|b: Seq<u8>| h@ == spec_hex_colon(b),
        ExtensionValue::AuthorityKeyIdentifier(a) => (a.key_identifier@ =~= Seq::<char>::empty()
            || exists|b: Seq<u8>| a.key_identifier@ == spec_hex_colon(b)) && (
        a.authority_cert_serial@ =~= Seq::<char>::empty() || exists|b: Seq<u8>|
            a.authority_cert_serial@ == spec_hex_plain(b)),
        _ => true,
    }
}

/// What holds of every extension record this module builds: the name
/// reports the payload's shape, and the payload is well-formed.
pub open spec fn spec_ext_wf(e: ExtensionRecord) -> bool {
    e.name@ == spec_type_name(e.value) && spec_ext_value_wf(e.value)
}

/// What holds of every certificate record this module builds: the
/// serial is a minimal lowercase hex rendering of some byte string, the
/// public key and signature values are colon-grouped line-wrapped hex
/// renderings, and every extension record is well-formed.
pub open spec fn spec_cert_wf(c: ParsedCertificate) -> bool {
    &&& exists|b: Seq<u8>| c.serial@ == spec_serial_hex(b)
    &&& exists|b: Seq<u8>| c.subject_public_key_value@ == spec_hex_grouped(b)
    &&& exists|b: Seq<u8>| c.signature_value@ == spec_hex_grouped(b)
    &&& forall|k: int| 0 <= k < c.extensions@.len() ==> spec_ext_wf(c.extensions@[k])
}

#[verifier::external_type_specification]
#[verifier::external_body]
pub struct ExX509Certificate<'a>(x509_parser::certificate::X509Certificate<'a>);

#[verifier::external_type_specification]
#[verifier::external_body]
pub struct ExOidRegistry<'a>(x509_parser::oid_registry::OidRegistry<'a>);

/// Relies on `x509_parser::pem::Pem::iter_from_buffer`: decodes every
/// PEM block found in the buffer and hands back each block's payload,
/// in input order, skipping blocks that do not decode. The iteration is
/// a function of the bytes alone, named by [`spec_pem_payloads`].
#[verifier::external_body]
fn pem_block_contents(data: &[u8]) -> (r: Vec<Vec<u8>>)
    ensures
        r@.len() == spec_pem_payloads(data@).len(),
        forall|i: int| 0 <= i < r@.len() ==> #[trigger] r@[i]@ == spec_pem_payloads(data@)[i],
{
    let mut out: Vec<Vec<u8>> = Vec::new();
    for block in x509_parser::pem::Pem::iter_from_buffer(data) {
        if let Ok(pem) = block {
            out.push(pem.contents);
        }
    }
    out
}

/// Relies on `X509Certificate::from_der`: decodes one DER certificate,
/// or reports why the bytes are not one. The judgment is a function of
/// the bytes alone, named by [`spec_der_is_cert`].
#[verifier::external_body]
fn cert_from_der<'a>(der: &'a [u8]) -> (r: Result<
    x509_parser::certificate::X509Certificate<'a>,
    String,
>)
    ensures
        r is Ok == spec_der_is_cert(der@),
{
    match x509_parser::certificate::X509Certificate::from_der(der) {
        Ok((_, cert)) => Ok(cert),
        Err(e) => Err(e.to_string()),
    }
}

/// Relies on `OidRegistry::default` and `OidRegistry::with_crypto`: the
/// read-only registry of crypto-related OID names.
#[verifier::external_body]
fn crypto_oid_registry<'a>() -> (r: x509_parser::oid_registry::OidRegistry<'a>) {
    x509_parser::oid_registry::OidRegistry::default().with_crypto()
}

/// Hands out the `version` field of the certificate.
#[verifier::external_body]
fn cert_version(crt: &x509_parser::certificate::X509Certificate<'_>) -> (r: u32) {
    crt.tbs_certificate.version.0
}

/// Relies on `TbsCertificate::raw_serial`: the big-endian bytes of the
/// serial number.
#[verifier::external_body]
fn cert_serial_bytes(crt: &x509_parser::certificate::X509Certificate<'_>) -> (r: Vec<u8>) {
    crt.tbs_certificate.raw_serial().to_vec()
}

/// Relies on the `Display` rendering of `X509Name`: the issuer
/// distinguished name in its standard string form.
#[verifier::external_body]
fn cert_issuer_string(crt: &x509_parser::certificate::X509Certificate<'_>) -> (r: String) {
    crt.tbs_certificate.issuer.to_string()
}

/// Relies on the `Display` rendering of `X509Name`: the subject
/// distinguished name in its standard string form.
#[verifier::external_body]
fn cert_subject_string(crt: &x509_parser::certificate::X509Certificate<'_>) -> (r: String) {
    crt.tbs_certificate.subject.to_string()
}

/// Relies on `ASN1Time::timestamp`: the validity bounds as Unix
/// timestamps.
#[verifier::external_body]
fn cert_validity_timestamps(crt: &x509_parser::certificate::X509Certificate<'_>) -> (r: (i64, i64)) {
    (
        crt.tbs_certificate.validity.not_before.timestamp(),
        crt.tbs_certificate.validity.not_after.timestamp(),
    )
}

/// Relies on `OidRegistry::get` and `OidEntry::sn`: the registry short
/// name of the subject public key algorithm, if registered.
#[verifier::external_body]
fn cert_spk_algorithm_name<'a>(
    crt: &x509_parser::certificate::X509Certificate<'a>,
    registry: &x509_parser::oid_registry::OidRegistry<'a>,
) -> (r: Option<String>) {
    registry.get(crt.tbs_certificate.subject_pki.algorithm.oid()).map(|entry| entry.sn().to_string())
}

/// Hands out the raw bytes of the subject public key bit string.
#[verifier::external_body]
fn cert_spk_bytes(crt: &x509_parser::certificate::X509Certificate<'_>) -> (r: Vec<u8>) {
    crt.tbs_certificate.subject_pki.subject_public_key.as_ref().to_vec()
}

/// Relies on `OidRegistry::get` and `OidEntry::sn`: the registry short
/// name of the signature algorithm, if registered.
#[verifier::external_body]
fn cert_sig_algorithm_name<'a>(
    crt: &x509_parser::certificate::X509Certificate<'a>,
    registry: &x509_parser::oid_registry::OidRegistry<'a>,
) -> (r: Option<String>) {
    registry.get(crt.signature_algorithm.oid()).map(|entry| entry.sn().to_string())
}

/// Hands out the raw bytes of the signature value bit string.
#[verifier::external_body]
fn cert_sig_bytes(crt: &x509_parser::certificate::X509Certificate<'_>) -> (r: Vec<u8>) {
    crt.signature_value.as_ref().to_vec()
}

/// Relies on `TbsCertificate::extensions` and `Oid::to_id_string`: the
/// dotted-decimal OID and criticality of each extension, in order.
#[verifier::external_body]
fn cert_extension_metas(crt: &x509_parser::certificate::X509Certificate<'_>) -> (r: Vec<
    (String, bool),
>) {
    let mut out: Vec<(String, bool)> = Vec::new();
    for ext in crt.tbs_certificate.extensions() {
        out.push((ext.oid.to_id_string(), ext.critical));
    }
    out
}

/// Hands out the fields of the extension at `i` when it decoded as
/// BasicConstraints.
#[verifier::external_body]
fn ext_basic_constraints(crt: &x509_parser::certificate::X509Certificate<'_>, i: usize) -> (r:
    Option<(bool, Option<u32>)>) {
    match crt.tbs_certificate.extensions().get(i).map(|e| e.parsed_extension()) {
        Some(x509_parser::extensions::ParsedExtension::BasicConstraints(bc)) => Some(
            (bc.ca, bc.path_len_constraint),
        ),
        _ => None,
    }
}

/// Hands out the flag bits of the extension at `i` when it decoded as
/// KeyUsage.
#[verifier::external_body]
fn ext_key_usage_flags(crt: &x509_parser::certificate::X509Certificate<'_>, i: usize) -> (r:
    Option<u16>) {
    match crt.tbs_certificate.extensions().get(i).map(|e| e.parsed_extension()) {
        Some(x509_parser::extensions::ParsedExtension::KeyUsage(ku)) => Some(ku.flags),
        _ => None,
    }
}

/// Hands out the purposes of the extension at `i` when it decoded as
/// ExtendedKeyUsage; relies on the `Display` rendering of `Oid` for the
/// unrecognized purposes.
#[verifier::external_body]
fn ext_extended_key_usage(crt: &x509_parser::certificate::X509Certificate<'_>, i: usize) -> (r:
    Option<ExtendedKeyUsageRecord>) {
    match crt.tbs_certificate.extensions().get(i).map(|e| e.parsed_extension()) {
        Some(x509_parser::extensions::ParsedExtension::ExtendedKeyUsage(eku)) => Some(
            ExtendedKeyUsageRecord {
                any: eku.any,
                server_auth: eku.server_auth,
                client_auth: eku.client_auth,
                code_signing: eku.code_signing,
                email_protection: eku.email_protection,
                time_stamping: eku.time_stamping,
                ocscp_signing: eku.ocsp_signing,
                other: eku.other.iter().map(|oid| oid.to_string()).collect(),
            },
        ),
        _ => None,
    }
}

/// Hands out the general names of the extension at `i` when it decoded
/// as SubjectAlternativeName, each in its debug-form rendering.
#[verifier::external_body]
fn ext_san_names(crt: &x509_parser::certificate::X509Certificate<'_>, i: usize) -> (r: Option<
    Vec<String>,
>) {
    match crt.tbs_certificate.extensions().get(i).map(|e| e.parsed_extension()) {
        Some(x509_parser::extensions::ParsedExtension::SubjectAlternativeName(san)) => Some(
            san.general_names.iter().map(|gn| format!("{:?}", gn)).collect(),
        ),
        _ => None,
    }
}

/// Hands out the fields of the extension at `i` when it decoded as
/// AuthorityKeyIdentifier: the key identifier bytes, the issuer names
/// in debug-form rendering, and the serial bytes.
#[verifier::external_body]
fn ext_authority_key_identifier(
    crt: &x509_parser::certificate::X509Certificate<'_>,
    i: usize,
) -> (r: Option<(Option<Vec<u8>>, Vec<String>, Option<Vec<u8>>)>) {
    match crt.tbs_certificate.extensions().get(i).map(|e| e.parsed_extension()) {
        Some(x509_parser::extensions::ParsedExtension::AuthorityKeyIdentifier(aki)) => Some(
            (
                aki.key_identifier.as_ref().map(|ki| ki.0.to_vec()),
                aki.authority_cert_issuer.as_ref().map(
                    |names| names.iter().map(|gn| format!("{:?}", gn)).collect(),
                ).unwrap_or_default(),
                aki.authority_cert_serial.map(|s| s.to_vec()),
            ),
        ),
        _ => None,
    }
}

/// Hands out the key identifier bytes of the extension at `i` when it
/// decoded as SubjectKeyIdentifier.
#[verifier::external_body]
fn ext_subject_key_identifier(crt: &x509_parser::certificate::X509Certificate<'_>, i: usize) -> (r:
    Option<Vec<u8>>) {
    match crt.tbs_certificate.extensions().get(i).map(|e| e.parsed_extension()) {
        Some(x509_parser::extensions::ParsedExtension::SubjectKeyIdentifier(ki)) => Some(
            ki.0.to_vec(),
        ),
        _ => None,
    }
}

/// Hands out the debug-form structural dump of the decoded extension at
/// `i`, the fallback payload for unrecognized extension types.
#[verifier::external_body]
fn ext_other_dump(crt: &x509_parser::certificate::X509Certificate<'_>, i: usize) -> (r: Option<
    String,
>) {
    crt.tbs_certificate.extensions().get(i).map(|e| format!("{:?}", e.parsed_extension()))
}

/// Decodes a KeyUsage bit string into its nine booleans, bit `k` of
/// the flags giving the `k`-th boolean.
pub fn key_usage_record(flags: u16) -> (r: KeyUsageRecord)
    ensures
        r == spec_key_usage_record(flags),
{
    KeyUsageRecord {
        digital_signature: flags & 1 == 1,
        content_commitment: (flags >> 1) & 1 == 1,
        key_encipherment: (flags >> 2) & 1 == 1,
        data_encipherment: (flags >> 3) & 1 == 1,
        key_agreement: (flags >> 4) & 1 == 1,
        key_cert_sign: (flags >> 5) & 1 == 1,
        crl_sign: (flags >> 6) & 1 == 1,
        encipher_only: (flags >> 7) & 1 == 1,
        decipher_only: (flags >> 8) & 1 == 1,
    }
}

/// The reported path-length constraint: the decoded value, or 0 when
/// the certificate carries none.
pub fn path_len_value(p: Option<u32>) -> (r: i64)
    ensures
        r == spec_path_len(p),
{
    match p {
        Some(v) => v as i64,
        None => 0,
    }
}

/// Colon-joined lowercase hex of optional bytes; empty when absent.
pub fn opt_hex_colon(o: Option<Vec<u8>>) -> (r: String)
    ensures
        match o {
            Some(b) => r@ == spec_hex_colon(b@),
            None => r@ == Seq::<char>::empty(),
        },
{
    match o {
        Some(b) => to_hex_colon(b.as_slice()),
        None => String::new(),
    }
}

/// Plain lowercase hex of optional bytes; empty when absent.
pub fn opt_hex_plain(o: Option<Vec<u8>>) -> (r: String)
    ensures
        match o {
            Some(b) => r@ == spec_hex_plain(b@),
            None => r@ == Seq::<char>::empty(),
        },
{
    match o {
        Some(b) => to_hex_plain(b.as_slice()),
        None => String::new(),
    }
}

/// The registry short name, or `"Unknown"` when the registry has none.
pub fn algorithm_name_or_unknown(name: Option<String>) -> (r: String)
    ensures
        name matches Some(n) ==> r == n,
        name is None ==> r@ == "Unknown"@,
{
    match name {
        Some(n) => n,
        None => "Unknown".to_owned(),
    }
}

/// The name under which a payload shape is reported.
pub fn type_name_string(v: &ExtensionValue) -> (r: String)
    ensures
        r@ == spec_type_name(*v),
{
    match v {
        ExtensionValue::BasicConstraints { .. } => "BasicConstraints".to_owned(),
        ExtensionValue::KeyUsage(_) => "KeyUsage".to_owned(),
        ExtensionValue::ExtendedKeyUsage(_) => "ExtendedKeyUsage".to_owned(),
        ExtensionValue::SubjectAlternativeName(_) => "SubjectAlternativeName".to_owned(),
        ExtensionValue::AuthorityKeyIdentifier(_) => "AuthorityKeyIdentifier".to_owned(),
        ExtensionValue::SubjectKeyIdentifier(_) => "SubjectKeyIdentifier".to_owned(),
        ExtensionValue::Other(_) => "Other".to_owned(),
    }
}

/// Builds the typed payload from the decoded shapes of one extension,
/// first match wins: BasicConstraints, then KeyUsage, ExtendedKeyUsage,
/// SubjectAlternativeName, AuthorityKeyIdentifier and
/// SubjectKeyIdentifier, with the literal dump as the fallback when
/// none decoded.
pub fn dispatch_extension_value(
    basic: Option<(bool, Option<u32>)>,
    key_usage: Option<u16>,
    extended: Option<ExtendedKeyUsageRecord>,
    san: Option<Vec<String>>,
    authority: Option<(Option<Vec<u8>>, Vec<String>, Option<Vec<u8>>)>,
    subject_key: Option<Vec<u8>>,
    dump: String,
) -> (v: ExtensionValue)
    ensures
        basic matches Some(bc) ==> v == (ExtensionValue::BasicConstraints {
            ca: bc.0,
            path_len_constraint: spec_path_len(bc.1),
        }),
        key_usage matches Some(flags) ==> (basic is None ==> v == ExtensionValue::KeyUsage(
            spec_key_usage_record(flags),
        )),
        extended matches Some(purposes) ==> ((basic is None && key_usage is None) ==> v
            == ExtensionValue::ExtendedKeyUsage(purposes)),
        san matches Some(names) ==> ((basic is None && key_usage is None && extended is None) ==> v
            == ExtensionValue::SubjectAlternativeName(names)),
        authority matches Some(fields) ==> ((basic is None && key_usage is None && extended is None
            && san is None) ==> (v matches ExtensionValue::AuthorityKeyIdentifier(a)
            && a.key_identifier@ == (match fields.0 {
            Some(b) => spec_hex_colon(b@),
            None => Seq::<char>::empty(),
        }) && a.authority_cert_issuer == fields.1 && a.authority_cert_serial@ == (match fields.2 {
            Some(b) => spec_hex_plain(b@),
            None => Seq::<char>::empty(),
        }))),
        subject_key matches Some(id) ==> ((basic is None && key_usage is None && extended is None
            && san is None && authority is None) ==> (v
            matches ExtensionValue::SubjectKeyIdentifier(h) && h@ == spec_hex_colon(id@))),
        basic is None && key_usage is None && extended is None && san is None && authority is None
            && subject_key is None ==> v == ExtensionValue::Other(dump),
        spec_ext_value_wf(v),
{
    if let Some((ca, path_len)) = basic {
        ExtensionValue::BasicConstraints { ca, path_len_constraint: path_len_value(path_len) }
    } else if let Some(flags) = key_usage {
        ExtensionValue::KeyUsage(key_usage_record(flags))
    } else if let Some(purposes) = extended {
        ExtensionValue::ExtendedKeyUsage(purposes)
    } else if let Some(names) = san {
        ExtensionValue::SubjectAlternativeName(names)
    } else if let Some((key_id, issuer_names, serial)) = authority {
        let ghost key_id_snapshot = key_id;
        let ghost serial_snapshot = serial;
        let record = AuthorityKeyIdentifierRecord {
            key_identifier: opt_hex_colon(key_id),
            authority_cert_issuer: issuer_names,
            authority_cert_serial: opt_hex_plain(serial),
        };
        proof {
            match key_id_snapshot {
                Some(b) => assert(record.key_identifier@ == spec_hex_colon(b@)),
                None => assert(record.key_identifier@ =~= Seq::<char>::empty()),
            }
            match serial_snapshot {
                Some(b) => assert(record.authority_cert_serial@ == spec_hex_plain(b@)),
                None => assert(record.authority_cert_serial@ =~= Seq::<char>::empty()),
            }
        }
        ExtensionValue::AuthorityKeyIdentifier(record)
    } else if let Some(key_id) = subject_key {
        let h = to_hex_colon(key_id.as_slice());
        proof {
            assert(h@ == spec_hex_colon(key_id@));
        }
        ExtensionValue::SubjectKeyIdentifier(h)
    } else {
        ExtensionValue::Other(dump)
    }
}

/// Dispatches the extension at `i` into its typed payload: the
/// extractor calls, then one [`dispatch_extension_value`] call.
fn extension_value_at(crt: &x509_parser::certificate::X509Certificate<'_>, i: usize) -> (v:
    ExtensionValue)
    ensures
        spec_ext_value_wf(v),
{
    let dump = match ext_other_dump(crt, i) {
        Some(d) => d,
        None => String::new(),
    };
    dispatch_extension_value(
        ext_basic_constraints(crt, i),
        ext_key_usage_flags(crt, i),
        ext_extended_key_usage(crt, i),
        ext_san_names(crt, i),
        ext_authority_key_identifier(crt, i),
        ext_subject_key_identifier(crt, i),
        dump,
    )
}

/// Decodes one certificate into its record.
fn record_from_cert<'a>(
    crt: &x509_parser::certificate::X509Certificate<'a>,
    registry: &x509_parser::oid_registry::OidRegistry<'a>,
) -> (r: ParsedCertificate)
    ensures
        spec_cert_wf(r),
{
    let serial_bytes = cert_serial_bytes(crt);
    let serial = serial_hex(serial_bytes.as_slice());
    let spk_bytes = cert_spk_bytes(crt);
    let subject_public_key_value = to_hex_grouped(spk_bytes.as_slice());
    let sig_bytes = cert_sig_bytes(crt);
    let signature_value = to_hex_grouped(sig_bytes.as_slice());
    let (not_before, not_after) = cert_validity_timestamps(crt);
    let subject_public_key_algorithm = algorithm_name_or_unknown(cert_spk_algorithm_name(
        crt,
        registry,
    ));
    let signature_algorithm = algorithm_name_or_unknown(cert_sig_algorithm_name(crt, registry));
    let metas = cert_extension_metas(crt);
    let mut extensions: Vec<ExtensionRecord> = Vec::new();
    for i in 0..metas.len()
        invariant
            forall|k: int| 0 <= k < extensions@.len() ==> spec_ext_wf(extensions@[k]),
    {
        let oid = metas[i].0.clone();
        let critical = metas[i].1;
        let value = extension_value_at(crt, i);
        let name = type_name_string(&value);
        let record = ExtensionRecord { oid, name, critical, value };
        proof {
            assert(spec_ext_wf(record));
        }
        extensions.push(record);
    }
    let version = cert_version(crt);
    let r = ParsedCertificate {
        version: version as i64,
        serial,
        issuer: cert_issuer_string(crt),
        not_before,
        not_after,
        subject: cert_subject_string(crt),
        subject_public_key_algorithm,
        subject_public_key_value,
        extensions,
        signature_algorithm,
        signature_value,
    };
    proof {
        assert(r.serial@ == spec_serial_hex(serial_bytes@));
        assert(r.subject_public_key_value@ == spec_hex_grouped(spk_bytes@));
        assert(r.signature_value@ == spec_hex_grouped(sig_bytes@));
    }
    r
}

/// The certificate parser.
pub struct ParseCommand;

impl ParseCommand {
    /// Decodes a byte buffer holding one or more certificates.
    ///
    /// Every PEM block whose payload parses as a certificate is
    /// decoded, in input order; if no block does, the whole buffer is
    /// decoded as one raw DER certificate. The call succeeds exactly
    /// when some PEM payload, or failing that the buffer itself, parses
    /// as a certificate; on success it returns one record per selected
    /// payload — at least one — and on failure `MalformedCertificate`
    /// with no partial result. An extension that fails to decode into
    /// its expected type degrades to the `"Other"` fallback instead.
    /// Every record returned is well-formed in the sense of
    /// [`spec_cert_wf`].
    pub fn parse(&self, data: &[u8]) -> (r: Result<Vec<ParsedCertificate>, CryptoError>)
        ensures
            r is Ok == (spec_cert_payloads(data@).len() > 0 || spec_der_is_cert(data@)),
            r is Ok ==> r->Ok_0@.len() == spec_selected_payloads(data@).len(),
            r is Ok ==> r->Ok_0@.len() >= 1,
            r is Ok ==> forall|k: int|
                0 <= k < r->Ok_0@.len() ==> spec_cert_wf(#[trigger] r->Ok_0@[k]),
            r is Err ==> r->Err_0 is MalformedCertificate,
    {
        let registry = crypto_oid_registry();
        let blocks = pem_block_contents(data);
        let ghost pp = spec_pem_payloads(data@);
        let mut ders: Vec<Vec<u8>> = Vec::new();
        proof {
            assert(pp.take(0) =~= Seq::<Seq<u8>>::empty());
            lemma_cert_filter_empty();
            assert(payload_views(ders@) =~= spec_cert_filter(pp.take(0)));
        }
        let block_count = blocks.len();
        for i in 0..block_count
            invariant
                block_count == blocks@.len(),
                blocks@.len() == pp.len(),
                forall|j: int| 0 <= j < blocks@.len() ==> #[trigger] blocks@[j]@ == pp[j],
                payload_views(ders@) == spec_cert_filter(pp.take(i as int)),
                forall|k: int| 0 <= k < ders@.len() ==> spec_der_is_cert(#[trigger] ders@[k]@),
        {
            let ghost ders_old = ders@;
            let keep = cert_from_der(blocks[i].as_slice()).is_ok();
            if keep {
                ders.push(slice_to_vec(blocks[i].as_slice()));
            }
            proof {
                assert(pp.take(i + 1) =~= pp.take(i as int).push(pp[i as int]));
                lemma_cert_filter_push(pp.take(i as int), pp[i as int]);
                if keep {
                    assert(payload_views(ders@) =~= payload_views(ders_old).push(pp[i as int]));
                } else {
                    assert(payload_views(ders@) =~= payload_views(ders_old));
                }
                assert(payload_views(ders@) =~= spec_cert_filter(pp.take(i + 1)));
            }
        }
        proof {
            assert(pp.take(pp.len() as int) =~= pp);
        }
        let ghost fallback = ders@.len() == 0;
        if ders.len() == 0 {
            ders.push(slice_to_vec(data));
            proof {
                assert(payload_views(ders@) =~= seq![data@]);
            }
        }
        proof {
            assert(payload_views(ders@) == spec_selected_payloads(data@));
        }
        let mut out: Vec<ParsedCertificate> = Vec::new();
        let der_count = ders.len();
        for i in 0..der_count
            invariant
                der_count == ders@.len(),
                ders@.len() >= 1,
                payload_views(ders@) == spec_selected_payloads(data@),
                fallback == (spec_cert_payloads(data@).len() == 0),
                !fallback ==> forall|k: int|
                    0 <= k < ders@.len() ==> spec_der_is_cert(#[trigger] ders@[k]@),
                fallback ==> ders@.len() == 1 && ders@[0]@ == data@,
                fallback && i > 0 ==> spec_der_is_cert(data@),
                out@.len() == i,
                forall|k: int| 0 <= k < out@.len() ==> spec_cert_wf(#[trigger] out@[k]),
        {
            let crt = match cert_from_der(ders[i].as_slice()) {
                Ok(c) => c,
                Err(m) => {
                    proof {
                        if !fallback {
                            assert(spec_der_is_cert(ders@[i as int]@));
                        }
                    }
                    return Err(CryptoError::MalformedCertificate(m));
                },
            };
            let record = record_from_cert(&crt, &registry);
            out.push(record);
        }
        proof {
            assert(out@.len() == spec_selected_payloads(data@).len());
        }
        Ok(out)
    }
}

} // verus!
