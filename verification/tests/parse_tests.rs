use nu_plugin_x509::errors::CryptoError;
use nu_plugin_x509::generate::GenCommand;
use nu_plugin_x509::parse::{ExtensionValue, ParseCommand, ParsedCertificate};
use nu_plugin_x509::request::CertificateRequest;

fn generated_pem(name: &str) -> String {
    let mut request = CertificateRequest::new(vec![name.to_string()]);
    request.common_name = format!("{} authority", name);
    GenCommand::generate_self_signed(&request)
        .unwrap()
        .certificate_pem
}

fn parse_all(data: &[u8]) -> Vec<ParsedCertificate> {
    ParseCommand.parse(data).unwrap()
}

#[test]
fn two_concatenated_pems_parse_in_order() {
    let first = generated_pem("first.example");
    let second = generated_pem("second.example");
    let combined = format!("{}{}", first, second);
    let records = parse_all(combined.as_bytes());
    assert_eq!(records.len(), 2);
    assert!(records[0].subject.contains("first.example authority"));
    assert!(records[1].subject.contains("second.example authority"));
    assert_eq!(records[0], parse_all(first.as_bytes())[0]);
    assert_eq!(records[1], parse_all(second.as_bytes())[0]);
}

#[test]
fn garbage_fails_with_malformed_certificate() {
    let error = ParseCommand.parse(b"neither pem nor der").unwrap_err();
    assert!(matches!(error, CryptoError::MalformedCertificate(_)));
    assert!(!error.message().is_empty());
}

#[test]
fn empty_buffer_fails_with_malformed_certificate() {
    let error = ParseCommand.parse(b"").unwrap_err();
    assert!(matches!(error, CryptoError::MalformedCertificate(_)));
}

#[test]
fn pem_with_malformed_payload_falls_back_and_fails() {
    let bogus = "-----BEGIN CERTIFICATE-----\nAAAA\n-----END CERTIFICATE-----\n";
    let error = ParseCommand.parse(bogus.as_bytes()).unwrap_err();
    assert!(matches!(error, CryptoError::MalformedCertificate(_)));
}

#[test]
fn parsing_is_deterministic() {
    let pem = generated_pem("stable.example");
    let once = parse_all(pem.as_bytes());
    let twice = parse_all(pem.as_bytes());
    assert_eq!(once, twice);
}

#[test]
fn raw_der_buffer_parses_as_single_certificate() {
    let pem = generated_pem("raw.example");
    let (_, decoded) = x509_parser::pem::parse_x509_pem(pem.as_bytes()).unwrap();
    let from_der = parse_all(&decoded.contents);
    let from_pem = parse_all(pem.as_bytes());
    assert_eq!(from_der.len(), 1);
    assert_eq!(from_der, from_pem);
}

#[test]
fn version_is_three() {
    let pem = generated_pem("version.example");
    let records = parse_all(pem.as_bytes());
    assert_eq!(records[0].version, 2);
}

#[test]
fn serial_rendering_is_minimal_lowercase_hex() {
    let pem = generated_pem("serial.example");
    let serial = &parse_all(pem.as_bytes())[0].serial;
    assert!(!serial.is_empty());
    assert!(!serial.contains("0x"));
    assert!(serial
        .chars()
        .all(|c| c.is_ascii_digit() || ('a'..='f').contains(&c)));
    if serial.len() > 1 {
        assert!(!serial.starts_with('0'));
    }
}

fn assert_grouped_hex(s: &str) {
    assert!(!s.is_empty());
    for (k, line) in s.split('\n').enumerate() {
        let groups: Vec<&str> = line.split(':').collect();
        assert!(groups.len() <= 16);
        let last_line = k == s.split('\n').count() - 1;
        if !last_line {
            assert_eq!(groups.len(), 16);
        }
        for group in groups {
            assert_eq!(group.len(), 2);
            assert!(group
                .chars()
                .all(|c| c.is_ascii_digit() || ('a'..='f').contains(&c)));
        }
    }
}

#[test]
fn key_and_signature_hex_are_grouped_and_lowercase() {
    let pem = generated_pem("grouped.example");
    let record = &parse_all(pem.as_bytes())[0];
    assert_grouped_hex(&record.subject_public_key_value);
    assert_grouped_hex(&record.signature_value);
    assert!(!record.subject_public_key_value.contains("0x"));
    assert!(!record.signature_value.contains("0x"));
}

#[test]
fn algorithms_resolve_against_the_registry() {
    let pem = generated_pem("algo.example");
    let record = &parse_all(pem.as_bytes())[0];
    assert_ne!(record.subject_public_key_algorithm, "Unknown");
    assert_ne!(record.signature_algorithm, "Unknown");
    assert!(!record.subject_public_key_algorithm.is_empty());
    assert!(!record.signature_algorithm.is_empty());
}

#[test]
fn subject_alternative_name_extension_is_typed() {
    let pem = generated_pem("san.example");
    let record = &parse_all(pem.as_bytes())[0];
    let mut seen = false;
    for ext in &record.extensions {
        if let ExtensionValue::SubjectAlternativeName(names) = &ext.value {
            assert_eq!(ext.name, "SubjectAlternativeName");
            assert_eq!(names.len(), 1);
            assert!(names[0].contains("san.example"));
            seen = true;
        }
    }
    assert!(seen);
}

#[test]
fn extension_oids_are_dotted_decimal() {
    let pem = generated_pem("oid.example");
    let record = &parse_all(pem.as_bytes())[0];
    assert!(!record.extensions.is_empty());
    for ext in &record.extensions {
        assert!(ext.oid.chars().all(|c| c.is_ascii_digit() || c == '.'));
        let named = matches!(
            ext.name.as_str(),
            "BasicConstraints"
                | "KeyUsage"
                | "ExtendedKeyUsage"
                | "SubjectAlternativeName"
                | "AuthorityKeyIdentifier"
                | "SubjectKeyIdentifier"
                | "Other"
        );
        assert!(named);
    }
}

#[test]
fn dispatch_prefers_basic_constraints_first() {
    let value = nu_plugin_x509::parse::dispatch_extension_value(
        Some((true, Some(5))),
        Some(1),
        None,
        None,
        None,
        None,
        "unused".to_string(),
    );
    assert_eq!(
        value,
        ExtensionValue::BasicConstraints {
            ca: true,
            path_len_constraint: 5
        }
    );
}

#[test]
fn dispatch_renders_identifiers_and_falls_back_to_other() {
    let value = nu_plugin_x509::parse::dispatch_extension_value(
        None,
        None,
        None,
        None,
        None,
        Some(vec![0xa3, 0x05, 0x2f]),
        "unused".to_string(),
    );
    assert_eq!(
        value,
        ExtensionValue::SubjectKeyIdentifier("a3:05:2f".to_string())
    );
    let fallback = nu_plugin_x509::parse::dispatch_extension_value(
        None,
        None,
        None,
        None,
        None,
        None,
        "raw dump".to_string(),
    );
    assert_eq!(fallback, ExtensionValue::Other("raw dump".to_string()));
}

#[test]
fn dispatch_authority_key_identifier_fields() {
    let value = nu_plugin_x509::parse::dispatch_extension_value(
        None,
        None,
        None,
        None,
        Some((
            Some(vec![0xab, 0xcd]),
            vec!["issuer".to_string()],
            Some(vec![0x01, 0xff]),
        )),
        None,
        "unused".to_string(),
    );
    match value {
        ExtensionValue::AuthorityKeyIdentifier(aki) => {
            assert_eq!(aki.key_identifier, "ab:cd");
            assert_eq!(aki.authority_cert_issuer, vec!["issuer".to_string()]);
            assert_eq!(aki.authority_cert_serial, "01ff");
        }
        other => panic!("unexpected payload {:?}", other),
    }
}

#[test]
fn algorithm_name_falls_back_to_unknown() {
    assert_eq!(
        nu_plugin_x509::parse::algorithm_name_or_unknown(Some("rsaEncryption".to_string())),
        "rsaEncryption"
    );
    assert_eq!(
        nu_plugin_x509::parse::algorithm_name_or_unknown(None),
        "Unknown"
    );
}
