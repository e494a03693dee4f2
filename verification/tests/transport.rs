use soundwave::transport::error::TransportError;
use soundwave::transport::fingerprint::{
    certificate_fingerprint, certificate_identity, certificate_matches_pin, format_fingerprint, hex_nibble,
    parse_fingerprint, verify_pinned_certificate,
};
use soundwave::transport::identity::{
    describe_identity_read, identity_io_error, plan_identity, IdentityPlan, IdentityRead,
};
use soundwave::transport::pairing::PairingUri;

const ABC_SHA256: [u8; 32] = [
    0xba, 0x78, 0x16, 0xbf, 0x8f, 0x01, 0xcf, 0xea, 0x41, 0x41, 0x40, 0xde, 0x5d, 0xae, 0x22, 0x23, 0xb0, 0x03,
    0x61, 0xa3, 0x96, 0x17, 0x7a, 0x9c, 0xb4, 0x10, 0xff, 0x61, 0xf2, 0x00, 0x15, 0xad,
];

#[test]
fn fingerprint_text_round_trips() {
    let fingerprint = [0xAB; 32];
    assert_eq!(parse_fingerprint(&format_fingerprint(&fingerprint)).unwrap(), fingerprint);
}

#[test]
fn fingerprint_text_is_colon_separated_upper_case_hex() {
    let mut fingerprint = [0u8; 32];
    for (i, byte) in fingerprint.iter_mut().enumerate() {
        *byte = (i as u8) * 8 + 1;
    }
    let text = format_fingerprint(&fingerprint);
    assert_eq!(text.len(), 32 * 3 - 1);
    assert!(text.starts_with("01:09:11:19:21"));
    assert!(text.ends_with(":F1:F9"));
    assert_eq!(parse_fingerprint(&text).unwrap(), fingerprint);
}

#[test]
fn fingerprint_parsing_accepts_separators_and_either_case() {
    let lower = "ab".repeat(32);
    assert_eq!(parse_fingerprint(&lower).unwrap(), [0xAB; 32]);
    let spaced = "AB-ab ab\tAB\r\n".repeat(8);
    assert_eq!(parse_fingerprint(&spaced).unwrap(), [0xAB; 32]);
}

#[test]
fn fingerprint_parsing_reports_bad_input() {
    assert_eq!(
        parse_fingerprint("AB:CD"),
        Err(TransportError::Certificate(
            "certificate fingerprint needs 64 hexadecimal digits, got 4".to_owned()
        ))
    );
    let not_hex = "zz".repeat(32);
    assert_eq!(
        parse_fingerprint(&not_hex),
        Err(TransportError::Certificate(
            "certificate fingerprint contains non-hexadecimal data".to_owned()
        ))
    );
    assert_eq!(hex_nibble(b'7'), Some(7));
    assert_eq!(hex_nibble(b'f'), Some(15));
    assert_eq!(hex_nibble(b'C'), Some(12));
    assert_eq!(hex_nibble(b'g'), None);
}

#[test]
fn certificate_fingerprint_is_sha256() {
    assert_eq!(certificate_fingerprint(b"abc"), ABC_SHA256);
    let identity = certificate_identity(b"abc".to_vec());
    assert_eq!(identity.sha256_fingerprint, ABC_SHA256);
    assert_eq!(identity.certificate_der, b"abc".to_vec());
}

#[test]
fn pinned_certificate_is_accepted_only_with_its_digest() {
    assert!(certificate_matches_pin(b"abc", &ABC_SHA256));
    let mut other = ABC_SHA256;
    other[31] ^= 1;
    assert!(!certificate_matches_pin(b"abc", &other));
    assert!(!certificate_matches_pin(b"abd", &ABC_SHA256));
}

#[test]
fn pairing_uri_is_compact_and_canonical() {
    let uri = PairingUri::new([192, 168, 1, 42], 48_400, [0xAB; 32]).encode();

    assert_eq!(
        uri,
        "soundwave://pair/v1?host=192.168.1.42&port=48400&fp=ABABABABABABABABABABABABABABABABABABABABABABABABABABABABABABABAB"
    );
}

#[test]
fn pairing_uri_writes_each_octet_in_decimal() {
    let mut fingerprint = [0u8; 32];
    fingerprint[0] = 0x0F;
    let uri = PairingUri::new([10, 0, 255, 7], 1, fingerprint).encode();
    assert_eq!(
        uri,
        "soundwave://pair/v1?host=10.0.255.7&port=1&fp=0F00000000000000000000000000000000000000000000000000000000000000"
    );
}

#[test]
fn identity_is_used_created_or_refused() {
    match plan_identity("dir", IdentityRead::Read(vec![1]), IdentityRead::Read(vec![2])) {
        IdentityPlan::Use { certificate_der, private_key_der } => {
            assert_eq!(certificate_der, vec![1]);
            assert_eq!(private_key_der, vec![2]);
        }
        other => panic!("unexpected {other:?}"),
    }
    assert!(matches!(
        plan_identity("dir", IdentityRead::NotFound("gone".into()), IdentityRead::NotFound("gone".into())),
        IdentityPlan::Create
    ));
    match plan_identity("dir", IdentityRead::Read(vec![1]), IdentityRead::NotFound("missing".into())) {
        IdentityPlan::Fail(TransportError::Certificate(message)) => assert_eq!(
            message,
            "incomplete or unreadable server identity in dir (certificate: ok, key: missing)"
        ),
        other => panic!("unexpected {other:?}"),
    }
    assert_eq!(describe_identity_read(&IdentityRead::Failed("denied".into())), "denied");
    assert_eq!(
        identity_io_error("disk full"),
        TransportError::Certificate("server identity I/O error: disk full".to_owned())
    );
}

#[test]
fn pinned_verification_explains_a_mismatch() {
    assert_eq!(verify_pinned_certificate(b"abc", &ABC_SHA256), Ok(()));
    assert_eq!(
        verify_pinned_certificate(b"abcd", &ABC_SHA256),
        Err("server certificate fingerprint does not match the pinned fingerprint".to_owned())
    );
}
