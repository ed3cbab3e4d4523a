use nu_plugin_x509::keyusage::{parse_key_usage_selector, KeyUsageFlag};

#[test]
fn selector_single_token() {
    assert_eq!(
        parse_key_usage_selector("digital_signature"),
        vec![KeyUsageFlag::DigitalSignature]
    );
}

#[test]
fn selector_ignores_unrecognized_tokens() {
    assert_eq!(
        parse_key_usage_selector("digital_signature,bogus"),
        vec![KeyUsageFlag::DigitalSignature]
    );
    assert_eq!(parse_key_usage_selector("bogus"), vec![]);
}

#[test]
fn selector_trims_whitespace_per_token() {
    assert_eq!(
        parse_key_usage_selector("  key_cert_sign ,\tcrl_sign "),
        vec![KeyUsageFlag::KeyCertSign, KeyUsageFlag::CrlSign]
    );
}

#[test]
fn selector_is_case_sensitive() {
    assert_eq!(parse_key_usage_selector("Digital_Signature"), vec![]);
    assert_eq!(parse_key_usage_selector("DIGITAL_SIGNATURE"), vec![]);
}

#[test]
fn selector_empty_yields_no_flags() {
    assert_eq!(parse_key_usage_selector(""), vec![]);
    assert_eq!(parse_key_usage_selector(" , ,"), vec![]);
}

#[test]
fn selector_no_inner_trimming() {
    assert_eq!(parse_key_usage_selector("digital signature"), vec![]);
}

#[test]
fn selector_all_nine_tokens() {
    let selector = "digital_signature,content_commitment,key_encipherment,data_encipherment,\
                    key_agreement,key_cert_sign,crl_sign,encipher_only,decipher_only";
    assert_eq!(
        parse_key_usage_selector(selector),
        vec![
            KeyUsageFlag::DigitalSignature,
            KeyUsageFlag::ContentCommitment,
            KeyUsageFlag::KeyEncipherment,
            KeyUsageFlag::DataEncipherment,
            KeyUsageFlag::KeyAgreement,
            KeyUsageFlag::KeyCertSign,
            KeyUsageFlag::CrlSign,
            KeyUsageFlag::EncipherOnly,
            KeyUsageFlag::DecipherOnly,
        ]
    );
}

#[test]
fn selector_keeps_order_and_repeats() {
    assert_eq!(
        parse_key_usage_selector("crl_sign,digital_signature,crl_sign"),
        vec![
            KeyUsageFlag::CrlSign,
            KeyUsageFlag::DigitalSignature,
            KeyUsageFlag::CrlSign,
        ]
    );
}
