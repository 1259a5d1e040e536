use otp_service::base32::{base32_decode, base32_encode, decode_symbols, remove_spaces};
use otp_service::default_size;
use otp_service::qr::{generate_qr, QrResponse};
use otp_service::secret::{generate_base32_secret, generate_totp_secret, random_bytes};
use otp_service::service::{
    get_headers, health_check, secret_lookup_endpoint, secret_setup_endpoint, setup_response,
    setup_totp, stored_secret, verify_totp, verify_totp_checked, SecretLookup, INTERNAL_SERVER_ERROR,
};
use otp_service::totp::{calculate_totp, check_code, code_from_tag, format_six_digits, to_be_bytes};
use otp_service::uri::{create_totp_uri, qr_code_url};

const RFC_SECRET: &[u8] = b"12345678901234567890";
const RFC_SECRET_BASE32: &str = "GEZDGNBVGY3TQOJQGEZDGNBVGY3TQOJQ";

fn lookup_of(secret: &str) -> SecretLookup {
    Some(vec![Some(secret.to_string())])
}

// ----- base32 -----

#[test]
fn base32_encode_rfc4648_vectors() {
    let cases: [(&str, &str); 7] = [
        ("", ""),
        ("f", "MY"),
        ("fo", "MZXQ"),
        ("foo", "MZXW6"),
        ("foob", "MZXW6YQ"),
        ("fooba", "MZXW6YTB"),
        ("foobar", "MZXW6YTBOI"),
    ];
    for (input, expected) in cases {
        assert_eq!(base32_encode(input.as_bytes()), expected);
    }
}

#[test]
fn base32_encode_rfc_secret() {
    assert_eq!(base32_encode(RFC_SECRET), RFC_SECRET_BASE32);
}

#[test]
fn base32_decode_rfc4648_vectors() {
    assert_eq!(base32_decode("MZXW6YTBOI").unwrap(), b"foobar".to_vec());
    assert_eq!(base32_decode("MZXW6").unwrap(), b"foo".to_vec());
    assert_eq!(base32_decode("MY").unwrap(), b"f".to_vec());
    assert_eq!(base32_decode("").unwrap(), Vec::<u8>::new());
}

#[test]
fn base32_decode_ignores_spaces_and_case() {
    assert_eq!(base32_decode("mzxw 6ytb oi").unwrap(), b"foobar".to_vec());
    assert_eq!(base32_decode(" M z X w 6 y T b O i ").unwrap(), b"foobar".to_vec());
}

#[test]
fn base32_decode_drops_leftover_bits() {
    // Seven bits are not a byte.
    assert_eq!(base32_decode("A").unwrap(), Vec::<u8>::new());
    // 15 bits give one byte.
    assert_eq!(base32_decode("MYA").unwrap(), b"f".to_vec());
}

#[test]
fn base32_decode_reports_first_invalid_character() {
    assert_eq!(base32_decode("MZ1XW").unwrap_err(), "Invalid base32 character: 1");
    assert_eq!(base32_decode("AB=").unwrap_err(), "Invalid base32 character: =");
    assert_eq!(base32_decode("A8B0").unwrap_err(), "Invalid base32 character: 8");
}

#[test]
fn base32_decode_uses_unicode_uppercase() {
    // 'ß' upper-cases to "SS", which decodes as two symbols of value 18.
    assert_eq!(base32_decode("ß").unwrap(), vec![148u8]);
    assert_eq!(base32_decode("é").unwrap_err(), "Invalid base32 character: É");
}

#[test]
fn decode_symbols_is_case_sensitive() {
    assert_eq!(decode_symbols("MY").unwrap(), b"f".to_vec());
    assert_eq!(decode_symbols("my").unwrap_err(), "Invalid base32 character: m");
}

#[test]
fn remove_spaces_keeps_other_characters() {
    assert_eq!(remove_spaces(" a b\tc "), "ab\tc");
}

#[test]
fn base32_roundtrip_on_many_lengths() {
    for n in 0..40usize {
        let bytes: Vec<u8> = (0..n).map(|i| (i * 37 + 11) as u8).collect();
        let encoded = base32_encode(&bytes);
        assert_eq!(encoded.len(), (8 * n + 4) / 5);
        assert_eq!(base32_decode(&encoded).unwrap(), bytes);
    }
}

// ----- TOTP -----

#[test]
fn to_be_bytes_is_big_endian() {
    assert_eq!(to_be_bytes(0x0102030405060708), vec![1, 2, 3, 4, 5, 6, 7, 8]);
    assert_eq!(to_be_bytes(1), vec![0, 0, 0, 0, 0, 0, 0, 1]);
}

#[test]
fn format_six_digits_pads_with_zeros() {
    assert_eq!(format_six_digits(0), "000000");
    assert_eq!(format_six_digits(42), "000042");
    assert_eq!(format_six_digits(999999), "999999");
}

#[test]
fn code_from_tag_rfc4226_example() {
    // RFC 4226, section 5.4: the tag 1f8698690e02ca16618550ef7f19da8e945b555a
    // truncates to 0x50ef7f19 = 1357872921.
    let tag: [u8; 20] = [
        0x1f, 0x86, 0x98, 0x69, 0x0e, 0x02, 0xca, 0x16, 0x61, 0x85, 0x50, 0xef, 0x7f, 0x19, 0xda,
        0x8e, 0x94, 0x5b, 0x55, 0x5a,
    ];
    assert_eq!(code_from_tag(&tag), "872921");
}

#[test]
fn calculate_totp_rfc6238_vectors() {
    // RFC 6238, appendix B, SHA-1 (last six of the eight digits).
    let cases: [(u64, &str); 6] = [
        (59, "287082"),
        (1111111109, "081804"),
        (1111111111, "050471"),
        (1234567890, "005924"),
        (2000000000, "279037"),
        (20000000000, "353130"),
    ];
    for (time, expected) in cases {
        assert_eq!(calculate_totp(RFC_SECRET, time).unwrap(), expected);
    }
}

#[test]
fn calculate_totp_constant_within_step() {
    assert_eq!(calculate_totp(RFC_SECRET, 30).unwrap(), calculate_totp(RFC_SECRET, 59).unwrap());
    assert_ne!(calculate_totp(RFC_SECRET, 59).unwrap(), calculate_totp(RFC_SECRET, 60).unwrap());
}

#[test]
fn calculate_totp_accepts_any_key_length() {
    assert_eq!(calculate_totp(&[], 0).unwrap().len(), 6);
    assert_eq!(calculate_totp(&[7u8; 200], 123456).unwrap().len(), 6);
}

#[test]
fn check_code_window() {
    let code = "287082".to_string(); // the code of step 1 (times 30..59)
    assert_eq!(check_code(RFC_SECRET, &code, 59), Ok(true));
    assert_eq!(check_code(RFC_SECRET, &code, 89), Ok(true));
    assert_eq!(check_code(RFC_SECRET, &code, 29), Ok(true));
    assert_eq!(check_code(RFC_SECRET, &code, 120), Ok(false));
    assert_eq!(check_code(RFC_SECRET, &"000000".to_string(), 59), Ok(false));
}

// ----- URIs -----

#[test]
fn url_encode_percent_encodes_utf8_bytes() {
    assert_eq!(
        create_totp_uri("S", "a b&c/é", "Az09-_.~"),
        "otpauth://totp/Az09-_.~:a%20b%26c%2F%C3%A9?secret=S&issuer=Az09-_.~&algorithm=SHA1&digits=6&period=30"
    );
}

#[test]
fn create_totp_uri_format() {
    assert_eq!(
        create_totp_uri("JBSWY3DPEHPK3PXP", "alice@example.com", "Example Co"),
        "otpauth://totp/Example%20Co:alice%40example.com?secret=JBSWY3DPEHPK3PXP&issuer=Example%20Co&algorithm=SHA1&digits=6&period=30"
    );
}

#[test]
fn qr_code_url_format() {
    assert_eq!(qr_code_url("otpauth://x?a=b"), "http://localhost:8080/2fa/qr?data=otpauth%3A%2F%2Fx%3Fa%3Db");
}

// ----- secrets -----

#[test]
fn random_bytes_has_length() {
    assert_eq!(random_bytes(0).len(), 0);
    assert_eq!(random_bytes(17).len(), 17);
}

#[test]
fn generate_base32_secret_shape() {
    let s = generate_base32_secret();
    assert_eq!(s.len(), 32);
    assert!(s.chars().all(|c| c.is_ascii_uppercase() || ('2'..='7').contains(&c)));
    assert_eq!(base32_decode(&s).unwrap().len(), 20);
}

#[test]
fn generate_totp_secret_shape() {
    let s = generate_totp_secret();
    assert_eq!(s.len(), 43);
    assert!(s.chars().all(|c| c.is_ascii_alphanumeric() || c == '-' || c == '_'));
}

// ----- service -----

#[test]
fn default_size_is_150() {
    assert_eq!(default_size(), 150);
}

#[test]
fn health_check_message() {
    assert_eq!(health_check(), "Authentication service is running!");
}

#[test]
fn get_headers_is_json_content_type() {
    let h = get_headers();
    assert_eq!(h, vec![("Content-Type".to_string(), "application/json".to_string())]);
}

#[test]
fn endpoints() {
    assert_eq!(secret_setup_endpoint("https://api.x"), "https://api.x/v1/auth2fa/otp_secrets/setup");
    assert_eq!(secret_lookup_endpoint("https://api.x"), "https://api.x/v1/auth2fa/totp_secrets/verify");
}

#[test]
fn setup_response_fields() {
    let s = setup_response("JBSWY3DPEHPK3PXP".to_string(), "bob", "auexch.co");
    let uri = "otpauth://totp/auexch.co:bob?secret=JBSWY3DPEHPK3PXP&issuer=auexch.co&algorithm=SHA1&digits=6&period=30";
    assert_eq!(s.response.secret, "JBSWY3DPEHPK3PXP");
    assert_eq!(s.response.provisioning_uri, uri);
    assert_eq!(s.response.qr_code_url, qr_code_url(uri));
    assert_eq!(s.record.user_id, "bob");
    assert_eq!(s.record.secret, "JBSWY3DPEHPK3PXP");
    assert_eq!(s.record.issuer, "auexch.co");
}

#[test]
fn setup_totp_uses_fresh_base32_secret() {
    let s = setup_totp("carol", "Issuer");
    assert_eq!(s.response.secret.len(), 32);
    assert_eq!(base32_decode(&s.response.secret).unwrap().len(), 20);
    assert_eq!(s.response.provisioning_uri, create_totp_uri(&s.response.secret, "carol", "Issuer"));
}

#[test]
fn stored_secret_needs_exactly_one_string() {
    assert_eq!(stored_secret(&None), None);
    assert_eq!(stored_secret(&Some(vec![])), None);
    assert_eq!(stored_secret(&Some(vec![None])), None);
    assert_eq!(stored_secret(&Some(vec![Some("A".to_string()), Some("B".to_string())])), None);
    assert_eq!(stored_secret(&lookup_of("ABC")), Some("ABC".to_string()));
}

#[test]
fn verify_totp_accepts_current_code() {
    let r = verify_totp(&lookup_of(RFC_SECRET_BASE32), &"287082".to_string(), Some(59)).unwrap();
    assert!(r.status);
    assert_eq!(r.message, "Verification successful");
}

#[test]
fn verify_totp_accepts_previous_step() {
    let r = verify_totp(&lookup_of(RFC_SECRET_BASE32), &"287082".to_string(), Some(89)).unwrap();
    assert!(r.status);
    assert_eq!(r.message, "Verification successful");
}

#[test]
fn verify_totp_rejects_wrong_code() {
    let r = verify_totp(&lookup_of(RFC_SECRET_BASE32), &"123456".to_string(), Some(59)).unwrap();
    assert!(!r.status);
    assert_eq!(r.message, "Invalid TOTP code");
}

#[test]
fn verify_totp_rejects_code_two_steps_old() {
    // 755224 is the code of step 0 (times 0..29); at 89 the window is steps 1..3.
    assert_eq!(calculate_totp(RFC_SECRET, 0).unwrap(), "755224");
    let r = verify_totp(&lookup_of(RFC_SECRET_BASE32), &"755224".to_string(), Some(89)).unwrap();
    assert!(!r.status);
    assert_eq!(r.message, "Invalid TOTP code");
}

#[test]
fn verify_totp_checked_matches_verify_totp() {
    let r = verify_totp_checked(&lookup_of(RFC_SECRET_BASE32), &"287082".to_string(), Some(59))
        .unwrap()
        .unwrap();
    assert!(r.status);
    assert_eq!(r.message, "Verification successful");
    assert!(verify_totp_checked(&None, &"287082".to_string(), Some(u64::MAX / 2)).is_some());
}

#[test]
fn verify_totp_checked_reports_overflow() {
    // i64::MAX as a clock reading: the +30 step overflows unless an earlier one matched.
    let top = i64::MAX as u64;
    assert!(verify_totp_checked(&lookup_of(RFC_SECRET_BASE32), &"000000".to_string(), Some(top)).is_none());
    let earlier = calculate_totp(RFC_SECRET, top - 30).unwrap();
    let r = verify_totp_checked(&lookup_of(RFC_SECRET_BASE32), &earlier, Some(top)).unwrap().unwrap();
    assert_eq!(r.message, "Verification successful");
    // 2^63 reads as i64::MIN: the -30 step overflows first.
    assert!(verify_totp_checked(&lookup_of(RFC_SECRET_BASE32), &"000000".to_string(), Some(1u64 << 63)).is_none());
    // A secret that does not decode is answered before any clock arithmetic.
    assert!(verify_totp_checked(&lookup_of("ABC1"), &"000000".to_string(), Some(top)).unwrap().is_err());
}

#[test]
fn generate_secret_alphabets() {
    let s = generate_base32_secret();
    assert!(s.chars().all(|c| c.is_ascii_uppercase() || ('2'..='7').contains(&c)));
    let t = generate_totp_secret();
    assert_eq!(t.len(), 43);
}

#[test]
fn verify_totp_not_set_up() {
    let r = verify_totp(&None, &"287082".to_string(), Some(59)).unwrap();
    assert!(!r.status);
    assert_eq!(r.message, "TOTP NOT SETUP");
    let two = Some(vec![Some("A".to_string()), Some("B".to_string())]);
    let r = verify_totp(&two, &"287082".to_string(), Some(59)).unwrap();
    assert!(!r.status);
    assert_eq!(r.message, "TOTP NOT SETUP");
}

#[test]
fn verify_totp_bad_secret_is_internal_error() {
    let e = verify_totp(&lookup_of("ABC1"), &"287082".to_string(), Some(59)).unwrap_err();
    assert_eq!(e.status_code, INTERNAL_SERVER_ERROR);
    assert_eq!(e.status_code, 500);
    assert!(!e.body.status);
    assert_eq!(e.body.message, "Invalid secret format: Invalid base32 character: 1");
}

#[test]
fn verify_totp_clock_error() {
    let e = verify_totp(&lookup_of(RFC_SECRET_BASE32), &"287082".to_string(), None).unwrap_err();
    assert_eq!(e.status_code, 500);
    assert!(!e.body.status);
    assert_eq!(e.body.message, "System time error");
}

#[test]
fn verify_totp_accepts_lower_case_secret_with_spaces() {
    let r = verify_totp(&lookup_of("gezd gnbv gy3t qojq gezd gnbv gy3t qojq"), &"287082".to_string(), Some(59))
        .unwrap();
    assert_eq!(r.message, "Verification successful");
}

#[test]
fn generated_secret_verifies_its_own_code() {
    let setup = setup_totp("dave", "Issuer");
    let bytes = base32_decode(&setup.response.secret).unwrap();
    let now = 1_700_000_000u64;
    let code = calculate_totp(&bytes, now).unwrap();
    let r = verify_totp(&lookup_of(&setup.response.secret), &code, Some(now)).unwrap();
    assert_eq!(r.message, "Verification successful");
}

// ----- QR -----

#[test]
fn generate_qr_missing_data() {
    match generate_qr(None) {
        QrResponse::BadRequest(m) => assert_eq!(m, "Missing `data` param"),
        QrResponse::Png(_) => panic!("expected a refusal"),
    }
}

#[test]
fn generate_qr_too_long() {
    let long = "x".repeat(5000);
    match generate_qr(Some(&long)) {
        QrResponse::BadRequest(m) => assert_eq!(m, "Invalid data"),
        QrResponse::Png(_) => panic!("expected a refusal"),
    }
}

#[test]
fn generate_qr_png() {
    match generate_qr(Some("otpauth://totp/A:b?secret=JBSWY3DPEHPK3PXP")) {
        QrResponse::Png(bytes) => {
            assert_eq!(&bytes[..8], &[0x89, b'P', b'N', b'G', 0x0d, 0x0a, 0x1a, 0x0a]);
            // IHDR: width and height are twice the symbol's side.
            let width = u32::from_be_bytes([bytes[16], bytes[17], bytes[18], bytes[19]]);
            let height = u32::from_be_bytes([bytes[20], bytes[21], bytes[22], bytes[23]]);
            assert_eq!(width, height);
            assert_eq!(width % 2, 0);
            assert!(width >= 42 && width <= 354);
        }
        QrResponse::BadRequest(m) => panic!("unexpected refusal: {}", m),
    }
}

#[test]
fn base32_decode_same_for_ascii_lowercase() {
    for s in ["MZXW6YTBOI", "mZ xW6 ytBOi", "ßMY", "éMY", "MZ1"] {
        assert_eq!(base32_decode(s), base32_decode(&s.to_ascii_lowercase()));
    }
    // "ßmy" upper-cases to "SSMY": 20 bits, two bytes.
    assert_eq!(base32_decode("ßmy").unwrap(), vec![148u8, 153u8]);
}
