use heimdallr::claims::{JwtClaims, JwtClaimsBuilder, JwtType};
use heimdallr::codec::{check_revocation, decode_token, encode_token, SigningKey};
use heimdallr::error::TokenError;

fn key() -> SigningKey {
    SigningKey::new(vec![0x13, 0x37, 0xAA, 0x55, 0x01, 0xFE, 0x20, 0x77])
}

fn other_key() -> SigningKey {
    SigningKey::new(vec![0x13, 0x37, 0xAA, 0x55, 0x01, 0xFE, 0x20, 0x78])
}

fn sample_claims() -> JwtClaims {
    JwtClaimsBuilder::new()
        .issuer("heimdallr".to_string())
        .subject("alice".to_string())
        .audience("takara@doge.com".to_string())
        .token_id("tok-1".to_string())
        .not_before(1_000)
        .issued_at(1_000)
        .expires(2_000)
        .add_claim("rôle".to_string(), "adm✓in".to_string())
        .add_claim("team".to_string(), "blue".to_string())
        .build()
        .unwrap()
}

fn assert_claims_eq(a: &JwtClaims, b: &JwtClaims) {
    assert_eq!(a.exp, b.exp);
    assert_eq!(a.nbf, b.nbf);
    assert_eq!(a.iat, b.iat);
    assert_eq!(a.iss, b.iss);
    assert_eq!(a.sub, b.sub);
    assert_eq!(a.aud, b.aud);
    assert_eq!(a.jti, b.jti);
    assert_eq!(a.extra, b.extra);
}

#[test]
fn token_round_trip() {
    let claims = sample_claims();
    let token = encode_token(&claims, JwtType::AccessToken, &key());
    let (decoded, kind) = decode_token(&token, &key(), 1_500, 0).unwrap();
    assert!(matches!(kind, JwtType::AccessToken));
    assert_claims_eq(&decoded, &claims);
}

#[test]
fn token_round_trip_refresh_kind() {
    let claims = sample_claims();
    let token = encode_token(&claims, JwtType::RefreshToken, &key());
    let (_, kind) = decode_token(&token, &key(), 2_000, 0).unwrap();
    assert!(matches!(kind, JwtType::RefreshToken));
}

#[test]
fn token_expired_is_rejected() {
    let claims = sample_claims();
    let token = encode_token(&claims, JwtType::AccessToken, &key());
    let e = decode_token(&token, &key(), 2_001, 0).unwrap_err();
    assert_eq!(e, TokenError::Expired);
}

#[test]
fn token_expiry_respects_leeway() {
    let claims = sample_claims();
    let token = encode_token(&claims, JwtType::AccessToken, &key());
    assert!(decode_token(&token, &key(), 2_005, 10).is_ok());
    assert_eq!(
        decode_token(&token, &key(), 2_011, 10).unwrap_err(),
        TokenError::Expired
    );
}

#[test]
fn token_not_yet_valid_is_rejected() {
    let claims = sample_claims();
    let token = encode_token(&claims, JwtType::AccessToken, &key());
    let e = decode_token(&token, &key(), 999, 0).unwrap_err();
    assert_eq!(e, TokenError::NotYetValid);
    assert!(decode_token(&token, &key(), 999, 1).is_ok());
}

#[test]
fn token_wrong_key_is_rejected() {
    let claims = sample_claims();
    let token = encode_token(&claims, JwtType::AccessToken, &key());
    let e = decode_token(&token, &other_key(), 1_500, 0).unwrap_err();
    assert_eq!(e, TokenError::SignatureInvalid);
}

#[test]
fn token_any_flipped_byte_is_a_signature_failure() {
    let claims = sample_claims();
    let token = encode_token(&claims, JwtType::AccessToken, &key());
    for i in 0..token.len() {
        let mut tampered = token.clone();
        tampered[i] ^= 0x40;
        let e = decode_token(&tampered, &key(), 1_500, 0).unwrap_err();
        assert_eq!(e, TokenError::SignatureInvalid, "byte {} went unnoticed", i);
    }
}

#[test]
fn token_truncated_is_malformed() {
    let token = vec![1u8, 2, 3];
    let e = decode_token(&token, &key(), 1_500, 0).unwrap_err();
    assert_eq!(e, TokenError::Malformed);
}

#[test]
fn token_revocation_check() {
    let claims = sample_claims();
    let revoked = vec!["tok-0".to_string(), "tok-1".to_string()];
    let e = check_revocation(&claims, &revoked).unwrap_err();
    assert_eq!(e, TokenError::Revoked);
    let clear = vec!["tok-0".to_string()];
    assert!(check_revocation(&claims, &clear).is_ok());
    let anonymous = JwtClaimsBuilder::new().expires(10).not_before(1).build().unwrap();
    assert!(check_revocation(&anonymous, &revoked).is_ok());
}

#[test]
fn token_without_optional_fields_round_trips() {
    let claims = JwtClaimsBuilder::new().expires(50).not_before(10).build().unwrap();
    let token = encode_token(&claims, JwtType::AccessToken, &key());
    let (decoded, _) = decode_token(&token, &key(), 20, 0).unwrap();
    assert_claims_eq(&decoded, &claims);
}
