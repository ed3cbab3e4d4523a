use nu_plugin_x509::parse::{ExtensionValue, ParseCommand};

/// The IGC/A root certificate, a public French government CA
/// certificate (RSA, signed with SHA-1), used as a fixed decoding
/// fixture: it carries BasicConstraints, KeyUsage, SubjectKeyIdentifier,
/// AuthorityKeyIdentifier and CertificatePolicies extensions.
const IGC_A_PEM: &str = "-----BEGIN CERTIFICATE-----\nMIIEAjCCAuqgAwIBAgIFORFFEJQwDQYJKoZIhvcNAQEFBQAwgYUxCzAJBgNVBAYT\nAkZSMQ8wDQYDVQQIEwZGcmFuY2UxDjAMBgNVBAcTBVBhcmlzMRAwDgYDVQQKEwdQ\nTS9TR0ROMQ4wDAYDVQQLEwVEQ1NTSTEOMAwGA1UEAxMFSUdDL0ExIzAhBgkqhkiG\n9w0BCQEWFGlnY2FAc2dkbi5wbS5nb3V2LmZyMB4XDTAyMTIxMzE0MjkyM1oXDTIw\nMTAxNzE0MjkyMlowgYUxCzAJBgNVBAYTAkZSMQ8wDQYDVQQIEwZGcmFuY2UxDjAM\nBgNVBAcTBVBhcmlzMRAwDgYDVQQKEwdQTS9TR0ROMQ4wDAYDVQQLEwVEQ1NTSTEO\nMAwGA1UEAxMFSUdDL0ExIzAhBgkqhkiG9w0BCQEWFGlnY2FAc2dkbi5wbS5nb3V2\nLmZyMIIBIjANBgkqhkiG9w0BAQEFAAOCAQ8AMIIBCgKCAQEAsh/R0GLFMzvABIaI\ns9z4iPf930Pfeo2aSVz2TqrMHLmh6yeJ8kbpO0px1R2OLc/mratjUMdUC24SyZA2\nxtgv2pGqaMVy/hcKshd+ebUyiHDKcMCWSo7kVc0dJ5S/znIq7Fz5cyD+vfcuiWe4\nu0dzEvfRNWk68gq5rv9GQkaiv6GFGvm/5P9JhfejcIYyHF2fYPepraX/z9E0+X1b\nF8bc1g4oa8Ld8fUzaJ1O/Id8NhLWo4DoQw1VYZTqZDdH6nfK0LJYBcNdfrGoRpAx\nVs5wKpayMLh35nnAvSk7/ZR3TL0gzUEl4C7HG7vupARB0l2tEmqKm0f7yd1GQOGd\nPDPQtQIDAQABo3cwdTAPBgNVHRMBAf8EBTADAQH/MAsGA1UdDwQEAwIBRjAVBgNV\nHSAEDjAMMAoGCCqBegF5AQEBMB0GA1UdDgQWBBSjBS8YYFDCiQrdKyFP/45OqDAx\nNjAfBgNVHSMEGDAWgBSjBS8YYFDCiQrdKyFP/45OqDAxNjANBgkqhkiG9w0BAQUF\nAAOCAQEABdwm2Pp3FURo/C9mOnTgXeQp/wYHE4RKq89toB9RlPhJy3Q2FLwV3duJ\nL92PoF189RLrn544pEfMs5bZvpwlqwN+Mw+VgQ39FuCIvjfwbF3QMZsyK10XZZOY\nYLxuj7GoPB7ZHPOpJkL5ZB3C55L29B5aqhlSXa/oovdgoPaN8In1buAKBQGVyYsg\nCrpa/JosPL3Dt8ldeCUFP1YUmwza+zpI/pdpXsoQhvdOlgQITeywvl3cO45Pwf2a\nNjSaTFR+FwNIlQgRHAdvhQh+XU3Endv7rs6y0bO4g2wdsrN58dhwmX7wEwLOXt1R\n0982gaEbeC9xs/FZTEYYKKuF0mBWWg==\n-----END CERTIFICATE-----\n";

const IGC_A_KEY_ID: &str = "a3:05:2f:18:60:50:c2:89:0a:dd:2b:21:4f:ff:8e:4e:a8:30:31:36";

#[test]
fn fixture_parses_with_expected_top_level_fields() {
    let records = ParseCommand.parse(IGC_A_PEM.as_bytes()).unwrap();
    assert_eq!(records.len(), 1);
    let record = &records[0];
    assert_eq!(record.version, 2);
    assert_eq!(record.serial, "3911451094");
    assert_eq!(record.subject_public_key_algorithm, "rsaEncryption");
    assert_eq!(record.signature_algorithm, "sha1WithRSAEncryption");
    assert!(record.issuer.contains("IGC/A"));
    assert!(record.subject.contains("IGC/A"));
}

#[test]
fn fixture_subject_key_identifier_is_colon_hex() {
    let records = ParseCommand.parse(IGC_A_PEM.as_bytes()).unwrap();
    let mut seen = false;
    for ext in &records[0].extensions {
        if let ExtensionValue::SubjectKeyIdentifier(id) = &ext.value {
            assert_eq!(ext.name, "SubjectKeyIdentifier");
            assert_eq!(ext.oid, "2.5.29.14");
            assert_eq!(id, IGC_A_KEY_ID);
            seen = true;
        }
    }
    assert!(seen);
}

#[test]
fn fixture_authority_key_identifier_fields() {
    let records = ParseCommand.parse(IGC_A_PEM.as_bytes()).unwrap();
    let mut seen = false;
    for ext in &records[0].extensions {
        if let ExtensionValue::AuthorityKeyIdentifier(aki) = &ext.value {
            assert_eq!(ext.name, "AuthorityKeyIdentifier");
            assert_eq!(ext.oid, "2.5.29.35");
            assert_eq!(aki.key_identifier, IGC_A_KEY_ID);
            assert!(aki.authority_cert_issuer.is_empty());
            assert_eq!(aki.authority_cert_serial, "");
            seen = true;
        }
    }
    assert!(seen);
}

#[test]
fn fixture_basic_constraints_and_key_usage() {
    let records = ParseCommand.parse(IGC_A_PEM.as_bytes()).unwrap();
    let mut bc = false;
    let mut ku = false;
    for ext in &records[0].extensions {
        match &ext.value {
            ExtensionValue::BasicConstraints {
                ca,
                path_len_constraint,
            } => {
                assert!(*ca);
                assert_eq!(*path_len_constraint, 0);
                bc = true;
            }
            ExtensionValue::KeyUsage(record) => {
                assert!(record.key_cert_sign);
                assert!(record.crl_sign);
                assert!(record.content_commitment);
                assert!(!record.digital_signature);
                ku = true;
            }
            _ => {}
        }
    }
    assert!(bc);
    assert!(ku);
}

#[test]
fn fixture_unrecognized_extension_falls_back_to_other() {
    let records = ParseCommand.parse(IGC_A_PEM.as_bytes()).unwrap();
    let mut other = false;
    for ext in &records[0].extensions {
        if let ExtensionValue::Other(dump) = &ext.value {
            assert_eq!(ext.name, "Other");
            assert!(!dump.is_empty());
            other = true;
        }
    }
    assert!(other);
}
