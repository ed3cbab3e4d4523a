use nu_plugin_x509::request::{
    ca_mode, CaMode, CertificateRequest, DEFAULT_CA_CONSTRAINT, DEFAULT_NOT_AFTER,
    DEFAULT_NOT_BEFORE,
};

#[test]
fn request_defaults() {
    let request = CertificateRequest::new(vec!["localhost".to_string()]);
    assert_eq!(request.subject_alt_names, vec!["localhost".to_string()]);
    assert_eq!(request.common_name, "nu_plugin_x509 self signed crt");
    assert_eq!(request.not_before, DEFAULT_NOT_BEFORE);
    assert_eq!(request.not_after, DEFAULT_NOT_AFTER);
    assert_eq!(request.ca_constraint, DEFAULT_CA_CONSTRAINT);
    assert!(request.key_usages.is_empty());
}

#[test]
fn default_timestamps_are_the_documented_dates() {
    let not_before = time::OffsetDateTime::from_unix_timestamp(DEFAULT_NOT_BEFORE).unwrap();
    assert_eq!(
        (not_before.year(), not_before.month() as u8, not_before.day()),
        (1975, 1, 1)
    );
    let not_after = time::OffsetDateTime::from_unix_timestamp(DEFAULT_NOT_AFTER).unwrap();
    assert_eq!(
        (not_after.year(), not_after.month() as u8, not_after.day()),
        (4096, 1, 1)
    );
    assert_eq!(rcgen::date_time_ymd(1975, 1, 1), not_before);
    assert_eq!(rcgen::date_time_ymd(4096, 1, 1), not_after);
}

#[test]
fn ca_mode_mapping() {
    assert_eq!(ca_mode(0), CaMode::Unconstrained);
    assert_eq!(ca_mode(3), CaMode::Constrained(3));
    assert_eq!(ca_mode(255), CaMode::Constrained(255));
    assert_eq!(ca_mode(300), CaMode::Constrained(44));
    assert_eq!(ca_mode(-1), CaMode::NotCa);
    assert_eq!(ca_mode(-100), CaMode::NotCa);
}
