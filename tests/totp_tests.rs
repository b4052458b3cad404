use proton_pass_mobile::{
    Algorithm, TOTPError, TotpTokenGenerator, TotpUriParser, TotpUriSanitizer, TOTP,
};

const EXAMPLE: &str =
    "otpauth://totp/Example:alice@example.com?secret=JBSWY3DPEHPK3PXP&issuer=Example&digits=6&period=30";

fn parse(s: &str) -> Result<TOTP, TOTPError> {
    TotpUriParser::new().parse(s.to_string())
}

fn bare(secret: &str) -> TOTP {
    TOTP {
        label: None,
        secret: secret.to_string(),
        issuer: None,
        algorithm: None,
        digits: None,
        period: None,
    }
}

#[test]
fn parses_full_uri() {
    let t = parse(EXAMPLE).unwrap();
    assert_eq!(t.label.as_deref(), Some("Example:alice@example.com"));
    assert_eq!(t.secret, "JBSWY3DPEHPK3PXP");
    assert_eq!(t.issuer.as_deref(), Some("Example"));
    assert_eq!(t.algorithm, None);
    assert_eq!(t.digits, Some(6));
    assert_eq!(t.period, Some(30));
}

#[test]
fn parses_escaped_label_and_missing_label() {
    let t = parse("otpauth://totp/My%20Bank%3a%3F?secret=abc&algorithm=SHA256").unwrap();
    assert_eq!(t.label.as_deref(), Some("My Bank:?"));
    assert_eq!(t.algorithm, Some(Algorithm::SHA256));
    let t = parse("otpauth://totp?secret=ABC&issuer=x%ZZ").unwrap();
    assert_eq!(t.label, None);
    assert_eq!(t.issuer.as_deref(), Some("x%ZZ"));
}

#[test]
fn decodes_utf8_escape_runs() {
    let t = parse("otpauth://totp/Caf%C3%A9%20%E2%82%AC%F0%9F%98%80?secret=ABC&issuer=%c3%a9").unwrap();
    assert_eq!(t.label.as_deref(), Some("Caf\u{e9} \u{20ac}\u{1f600}"));
    assert_eq!(t.issuer.as_deref(), Some("\u{e9}"));
    let t = parse("otpauth://totp/a%C3b%ED%A0%80%C0%80?secret=ABC").unwrap();
    assert_eq!(t.label.as_deref(), Some("a%C3b%ED%A0%80%C0%80"));
    let s = TotpUriSanitizer::new();
    let saved = s
        .uri_for_saving(
            "otpauth://totp/x?secret=ABC".to_string(),
            "otpauth://totp/Caf%C3%A9?secret=ABC".to_string(),
        )
        .unwrap();
    assert_eq!(saved, "otpauth://totp/Caf\u{e9}?secret=ABC");
    assert_eq!(parse(&saved).unwrap().label.as_deref(), Some("Caf\u{e9}"));
}

#[test]
fn first_repeated_parameter_counts() {
    let t = parse("otpauth://totp/a?digits=8&secret=ABC&digits=7&unknown=1").unwrap();
    assert_eq!(t.digits, Some(8));
}

#[test]
fn rejects_malformed_uri() {
    assert_eq!(parse("https://example.com/?secret=ABC").unwrap_err(), TOTPError::MalformedUri);
    assert_eq!(parse("otpauth://hotp/a?secret=ABC").unwrap_err(), TOTPError::MalformedUri);
    assert_eq!(parse("").unwrap_err(), TOTPError::MalformedUri);
}

#[test]
fn rejects_missing_or_bad_secret() {
    assert_eq!(parse("otpauth://totp/a?issuer=x").unwrap_err(), TOTPError::InvalidSecret);
    assert_eq!(parse("otpauth://totp/a").unwrap_err(), TOTPError::InvalidSecret);
    assert_eq!(parse("otpauth://totp/a?secret=").unwrap_err(), TOTPError::InvalidSecret);
    assert_eq!(parse("otpauth://totp/a?secret=JBSW1").unwrap_err(), TOTPError::InvalidSecret);
}

#[test]
fn rejects_unknown_algorithm() {
    assert_eq!(
        parse("otpauth://totp/a?secret=ABC&algorithm=MD5").unwrap_err(),
        TOTPError::UnsupportedAlgorithm
    );
}

#[test]
fn rejects_bad_digits() {
    for d in ["0", "-1", "5", "11", "six", ""] {
        let uri = format!("otpauth://totp/a?secret=ABC&digits={}", d);
        assert_eq!(parse(&uri).unwrap_err(), TOTPError::InvalidDigits, "{}", d);
    }
    assert_eq!(parse("otpauth://totp/a?secret=ABC&digits=10").unwrap().digits, Some(10));
}

#[test]
fn rejects_bad_period() {
    for p in ["0", "-30", "65536", "x"] {
        let uri = format!("otpauth://totp/a?secret=ABC&period={}", p);
        assert_eq!(parse(&uri).unwrap_err(), TOTPError::InvalidPeriod, "{}", p);
    }
    assert_eq!(parse("otpauth://totp/a?secret=ABC&period=65535").unwrap().period, Some(65535));
}

#[test]
fn error_order_secret_first() {
    assert_eq!(
        parse("otpauth://totp/a?algorithm=MD5&digits=0").unwrap_err(),
        TOTPError::InvalidSecret
    );
    assert!(!TOTPError::InvalidSecret.message().is_empty());
}

#[test]
fn canonical_uri_is_exact() {
    let t = TOTP {
        label: Some("Bank & Co?".to_string()),
        secret: "JBSWY3DPEHPK3PXP".to_string(),
        issuer: Some("A&B".to_string()),
        algorithm: Some(Algorithm::SHA512),
        digits: Some(8),
        period: Some(60),
    };
    assert_eq!(
        t.to_uri(),
        "otpauth://totp/Bank%20%26%20Co%3F?secret=JBSWY3DPEHPK3PXP&issuer=A%26B&algorithm=SHA512&digits=8&period=60"
    );
    assert_eq!(bare("ABC").to_uri(), "otpauth://totp?secret=ABC");
}

#[test]
fn round_trip_of_descriptors() {
    let t = TOTP {
        label: Some("x%y #1".to_string()),
        secret: "abcXYZ234567".to_string(),
        issuer: Some("I?s=s&u".to_string()),
        algorithm: Some(Algorithm::SHA256),
        digits: Some(7),
        period: Some(45),
    };
    let back = parse(&t.to_uri()).unwrap();
    assert_eq!(back.label, t.label);
    assert_eq!(back.secret, t.secret);
    assert_eq!(back.issuer, t.issuer);
    assert_eq!(back.algorithm, t.algorithm);
    assert_eq!(back.digits, t.digits);
    assert_eq!(back.period, t.period);
    let b = parse(&bare("ABC").to_uri()).unwrap();
    assert_eq!(b.label, None);
    assert_eq!(b.issuer, None);
    assert_eq!(b.digits, None);
}

#[test]
fn round_trip_keeps_empty_label_and_issuer() {
    let t = TOTP {
        label: Some(String::new()),
        issuer: Some(String::new()),
        ..bare("ABC")
    };
    assert_eq!(t.to_uri(), "otpauth://totp/?secret=ABC&issuer=");
    let back = parse(&t.to_uri()).unwrap();
    assert_eq!(back.label.as_deref(), Some(""));
    assert_eq!(back.issuer.as_deref(), Some(""));
    let none = parse("otpauth://totp?secret=ABC").unwrap();
    assert_eq!(none.label, None);
    assert_eq!(none.issuer, None);
}

#[test]
fn example_token_is_rfc6238() {
    let g = TotpTokenGenerator::new();
    let r = g.generate_token(EXAMPLE.to_string(), 1_700_000_000).unwrap();
    assert_eq!(r.token, "324550");
    assert_eq!(r.timestamp, 1_700_000_000);
    assert_eq!(r.totp.issuer.as_deref(), Some("Example"));
    let again = g.generate_token(EXAMPLE.to_string(), 1_700_000_000).unwrap();
    assert_eq!(again.token, r.token);
    assert_eq!(g.generate_token(EXAMPLE.to_string(), 0).unwrap().token, "282760");
}

#[test]
fn tokens_equal_within_one_period() {
    let g = TotpTokenGenerator::new();
    let a = g.generate_token(EXAMPLE.to_string(), 1_700_000_010).unwrap().token;
    let b = g.generate_token(EXAMPLE.to_string(), 1_700_000_029).unwrap().token;
    assert_eq!(a, b);
    assert_eq!(a, "367665");
    let c = g.generate_token(EXAMPLE.to_string(), 1_699_999_980).unwrap().token;
    let d = g.generate_token(EXAMPLE.to_string(), 1_700_000_009).unwrap().token;
    assert_eq!(c, d);
}

#[test]
fn rfc6238_vectors_for_each_algorithm() {
    let sha1 = "otpauth://totp/t?secret=GEZDGNBVGY3TQOJQGEZDGNBVGY3TQOJQ&digits=8";
    let sha256 = "otpauth://totp/t?secret=GEZDGNBVGY3TQOJQGEZDGNBVGY3TQOJQGEZDGNBVGY3TQOJQGEZA&digits=8&algorithm=SHA256";
    let sha512 = "otpauth://totp/t?secret=GEZDGNBVGY3TQOJQGEZDGNBVGY3TQOJQGEZDGNBVGY3TQOJQGEZDGNBVGY3TQOJQGEZDGNBVGY3TQOJQGEZDGNBVGY3TQOJQGEZDGNA&digits=8&algorithm=SHA512";
    let g = TotpTokenGenerator::new();
    assert_eq!(g.generate_token(sha1.to_string(), 59).unwrap().token, "94287082");
    assert_eq!(g.generate_token(sha1.to_string(), 1111111109).unwrap().token, "07081804");
    assert_eq!(g.generate_token(sha256.to_string(), 59).unwrap().token, "46119246");
    assert_eq!(g.generate_token(sha512.to_string(), 59).unwrap().token, "90693936");
}

#[test]
fn bare_secret_uses_defaults() {
    let g = TotpTokenGenerator::new();
    let r = g.generate_token("GEZDGNBVGY3TQOJQGEZDGNBVGY3TQOJQ".to_string(), 59).unwrap();
    assert_eq!(r.token, "287082");
    assert_eq!(r.totp.label, None);
    let lower = g.generate_token("gezdgnbvgy3tqojqgezdgnbvgy3tqojq".to_string(), 59).unwrap();
    assert_eq!(lower.token, "287082");
    let wide = TOTP { period: Some(60), ..bare("GEZDGNBVGY3TQOJQGEZDGNBVGY3TQOJQ") };
    assert_eq!(wide.generate_token(59).unwrap(), "755224");
}

#[test]
fn token_length_matches_digits() {
    for d in 6u8..=10 {
        let t = TOTP { digits: Some(d), ..bare("JBSWY3DPEHPK3PXP") };
        assert_eq!(t.generate_token(1_234_567).unwrap().len(), d as usize);
    }
}

#[test]
fn generation_errors() {
    let g = TotpTokenGenerator::new();
    assert_eq!(
        g.generate_token("not base32!".to_string(), 0).unwrap_err(),
        TOTPError::GenerationError
    );
    assert_eq!(
        g.generate_token("otpauth://totp/a?digits=6".to_string(), 0).unwrap_err(),
        TOTPError::InvalidSecret
    );
    assert_eq!(g.generate_token(String::new(), 0).unwrap_err(), TOTPError::GenerationError);
    let t = TOTP { digits: Some(0), ..bare("ABC") };
    assert_eq!(t.generate_token(0).unwrap_err(), TOTPError::InvalidDigits);
    let t = TOTP { period: Some(0), ..bare("ABC") };
    assert_eq!(t.generate_token(0).unwrap_err(), TOTPError::InvalidPeriod);
}

#[test]
fn editing_form_is_canonical_or_unchanged() {
    let s = TotpUriSanitizer::new();
    assert_eq!(
        s.uri_for_editing(EXAMPLE.to_string()),
        "otpauth://totp/Example:alice@example.com?secret=JBSWY3DPEHPK3PXP&issuer=Example&digits=6&period=30"
    );
    assert_eq!(s.uri_for_editing("garbage".to_string()), "garbage");
}

#[test]
fn edit_of_issuer_is_accepted() {
    let s = TotpUriSanitizer::new();
    let edited = EXAMPLE.replace("issuer=Example", "issuer=NewName");
    let saved = s.uri_for_saving(EXAMPLE.to_string(), edited).unwrap();
    assert!(saved.contains("issuer=NewName"));
    assert!(saved.contains("secret=JBSWY3DPEHPK3PXP"));
}

#[test]
fn edit_of_digits_and_period_is_canonicalized() {
    let s = TotpUriSanitizer::new();
    let edited = "otpauth://totp/Example:alice@example.com?period=60&digits=8&secret=JBSWY3DPEHPK3PXP";
    let saved = s.uri_for_saving(EXAMPLE.to_string(), edited.to_string()).unwrap();
    assert_eq!(
        saved,
        "otpauth://totp/Example:alice@example.com?secret=JBSWY3DPEHPK3PXP&digits=8&period=60"
    );
}

#[test]
fn edit_of_secret_is_rejected() {
    let s = TotpUriSanitizer::new();
    let edited = EXAMPLE.replace("JBSWY3DPEHPK3PXP", "GEZDGNBVGY3TQOJQ");
    assert_eq!(
        s.uri_for_saving(EXAMPLE.to_string(), edited).unwrap_err(),
        TOTPError::EditRejected
    );
}

#[test]
fn secret_edit_is_rejected_when_original_has_other_faults() {
    let s = TotpUriSanitizer::new();
    let original = "otpauth://totp/x?secret=JBSWY3DPEHPK3PXP&digits=99";
    let edited = "otpauth://totp/x?secret=GEZDGNBVGY3TQOJQ";
    assert_eq!(
        s.uri_for_saving(original.to_string(), edited.to_string()).unwrap_err(),
        TOTPError::EditRejected
    );
    let kept = "otpauth://totp/x?secret=JBSWY3DPEHPK3PXP";
    assert_eq!(s.uri_for_saving(original.to_string(), kept.to_string()).unwrap(), kept);
}

#[test]
fn malformed_edit_is_reported() {
    let s = TotpUriSanitizer::new();
    assert_eq!(
        s.uri_for_saving(EXAMPLE.to_string(), "otpauth://totp/a?secret=ABC&digits=0".to_string())
            .unwrap_err(),
        TOTPError::InvalidDigits
    );
    let saved = s.uri_for_saving("broken".to_string(), "otpauth://totp/a?secret=ABC".to_string());
    assert_eq!(saved.unwrap(), "otpauth://totp/a?secret=ABC");
}
