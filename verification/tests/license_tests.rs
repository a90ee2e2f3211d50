use poly_5min_bot::license::{
    create_license, decode_license, license_status, now_secs, LicenseError, LicenseStatus,
};

#[test]
fn license_round_trips_through_the_cipher() {
    let expiry: u64 = 1_770_972_345;
    let token = create_license(expiry).expect("license");
    assert_eq!(token.len(), 48);
    assert_eq!(decode_license(&token).expect("decode"), expiry);
}

#[test]
fn every_token_is_fresh_but_decodes_the_same() {
    let expiry: u64 = 42;
    let a = create_license(expiry).expect("license");
    let b = create_license(expiry).expect("license");
    // the random nonce makes the tokens differ
    assert_ne!(a, b);
    assert_eq!(decode_license(&a).expect("decode"), expiry);
    assert_eq!(decode_license(&b).expect("decode"), expiry);
}

#[test]
fn garbage_is_rejected_as_encoding() {
    assert_eq!(decode_license("not base64 !!!"), Err(LicenseError::InvalidEncoding));
}

#[test]
fn short_payloads_are_rejected() {
    // valid base64 of fewer than 12 bytes
    assert_eq!(decode_license("QUJD"), Err(LicenseError::Truncated));
    // the empty string is valid base64 of an empty payload
    assert_eq!(decode_license(""), Err(LicenseError::Truncated));
}

#[test]
fn tampering_is_detected() {
    let token = create_license(1_770_972_345).expect("license");
    // flip one character of the body
    let mut chars: Vec<char> = token.chars().collect();
    chars[20] = if chars[20] == 'A' { 'B' } else { 'A' };
    let tampered: String = chars.into_iter().collect();
    let r = decode_license(&tampered);
    assert!(
        matches!(r, Err(LicenseError::Tampered)) || matches!(r, Err(LicenseError::InvalidEncoding))
    );
    // a well-formed payload of the right length that was never sealed
    let fake = "AAAAAAAAAAAAAAAAAAAAAAAAAAAAAAAAAAAAAAAAAAAAAAA=";
    assert_eq!(decode_license(fake), Err(LicenseError::Tampered));
}

#[test]
fn status_compares_now_against_expiry() {
    assert_eq!(license_status(100, 200), LicenseStatus::Valid { remaining_secs: 100 });
    assert_eq!(license_status(200, 200), LicenseStatus::Expired);
    assert_eq!(license_status(201, 200), LicenseStatus::Expired);
    assert_eq!(license_status(0, 1), LicenseStatus::Valid { remaining_secs: 1 });
}

#[test]
fn the_clock_reads_a_plausible_time() {
    let now = now_secs().expect("clock");
    // after 2020-01-01 and before 2100-01-01
    assert!(now > 1_577_836_800);
    assert!(now < 4_102_444_800);
}
