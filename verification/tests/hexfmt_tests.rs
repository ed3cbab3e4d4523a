use nu_plugin_x509::hexfmt::{serial_hex, to_hex_colon, to_hex_grouped, to_hex_plain};

#[test]
fn hex_plain_matches_hex_crate() {
    let bytes: Vec<u8> = vec![0x00, 0x0f, 0x10, 0xab, 0xff];
    assert_eq!(to_hex_plain(&bytes), hex::encode(&bytes));
    assert_eq!(to_hex_plain(&bytes), "000f10abff");
}

#[test]
fn hex_plain_empty() {
    assert_eq!(to_hex_plain(&[]), "");
}

#[test]
fn hex_colon_joins_pairs() {
    assert_eq!(to_hex_colon(&[1, 2, 3, 4, 0xff]), "01:02:03:04:ff");
    assert_eq!(to_hex_colon(&[0xab]), "ab");
    assert_eq!(to_hex_colon(&[]), "");
}

#[test]
fn hex_grouped_wraps_every_sixteen_pairs() {
    let bytes: Vec<u8> = (0u8..20).collect();
    let line1 = "00:01:02:03:04:05:06:07:08:09:0a:0b:0c:0d:0e:0f";
    let line2 = "10:11:12:13";
    assert_eq!(to_hex_grouped(&bytes), format!("{}\n{}", line1, line2));
}

#[test]
fn hex_grouped_short_input_single_line() {
    assert_eq!(to_hex_grouped(&[0xde, 0xad]), "de:ad");
    assert_eq!(to_hex_grouped(&[]), "");
}

#[test]
fn hex_grouped_exact_sixteen_no_wrap() {
    let bytes: Vec<u8> = vec![0u8; 16];
    let expected = vec!["00"; 16].join(":");
    assert_eq!(to_hex_grouped(&bytes), expected);
}

#[test]
fn serial_hex_is_minimal() {
    assert_eq!(serial_hex(&[0x00, 0x0a, 0xbc]), "abc");
    assert_eq!(serial_hex(&[0xab, 0xcd]), "abcd");
    assert_eq!(serial_hex(&[0x05]), "5");
    assert_eq!(serial_hex(&[0x00]), "0");
    assert_eq!(serial_hex(&[]), "0");
    assert_eq!(serial_hex(&[0x00, 0x00, 0x01, 0x00]), "100");
}

#[test]
fn hex_renderings_are_lowercase_without_prefix() {
    let bytes: Vec<u8> = vec![0xAB, 0xCD, 0xEF, 0x12];
    for s in [
        to_hex_plain(&bytes),
        to_hex_colon(&bytes),
        to_hex_grouped(&bytes),
        serial_hex(&bytes),
    ] {
        assert!(!s.contains("0x"));
        assert!(!s.contains('x'));
        assert_eq!(s, s.to_lowercase());
    }
}
