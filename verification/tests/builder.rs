use heimdallr::claims::{JwtClaims, JwtClaimsBuilder};
use heimdallr::error::HeimdallrError;

#[test]
fn jwt_test_builder_issuer_with_str_slice() {
    JwtClaimsBuilder::default().issuer("Super Kawaii".to_string());
}

#[test]
fn jwt_test_builder_issuer_with_owned_string() {
    JwtClaimsBuilder::default().issuer(String::from("Super Kawaii"));
}

#[test]
fn jwt_test_builder_subject_with_str_slice() {
    JwtClaimsBuilder::default().subject("heimdallr".to_string());
}

#[test]
fn jwt_test_builder_subject_with_owned_string() {
    JwtClaimsBuilder::default().subject(String::from("heimdallr"));
}

#[test]
fn jwt_test_builder_audience_with_str_slice() {
    JwtClaimsBuilder::default().audience("takara@doge.com".to_string());
}

#[test]
fn jwt_test_builder_audience_with_owned_string() {
    JwtClaimsBuilder::default().audience(String::from("takara@doge.com"));
}

#[test]
fn jwt_test_builder_expires() -> Result<(), HeimdallrError> {
    let expected_exp = chrono::Utc::now() + chrono::Duration::seconds(42);

    let claims = JwtClaimsBuilder::default().expires_in(42).finish()?;

    assert_eq!(claims.exp, expected_exp.timestamp());
    Ok(())
}

#[test]
fn jwt_test_builder_not_before() -> Result<(), HeimdallrError> {
    let expected_nbf = chrono::Utc::now();

    let claims = JwtClaimsBuilder::default()
        .not_before(expected_nbf.timestamp())
        .expires(i64::MAX)
        .finish()?;

    assert_eq!(claims.nbf, expected_nbf.timestamp());
    Ok(())
}

#[test]
fn claims_test_builder_issuer_with_str_slice() {
    JwtClaimsBuilder::default().issuer("Super Kawaii".to_string());
}

#[test]
fn claims_test_builder_issuer_with_owned_string() {
    JwtClaimsBuilder::default().issuer(String::from("Super Kawaii"));
}

#[test]
fn claims_test_builder_subject_with_str_slice() {
    JwtClaimsBuilder::default().subject("heimdallr".to_string());
}

#[test]
fn claims_test_builder_subject_with_owned_string() {
    JwtClaimsBuilder::default().subject(String::from("heimdallr"));
}

#[test]
fn claims_test_builder_audience_with_str_slice() {
    JwtClaimsBuilder::default().audience("takara@doge.com".to_string());
}

#[test]
fn claims_test_builder_audience_with_owned_string() {
    JwtClaimsBuilder::default().audience(String::from("takara@doge.com"));
}

#[test]
fn claims_test_builder_expires() -> Result<(), HeimdallrError> {
    let expected_exp = chrono::Utc::now() + chrono::Duration::seconds(42);

    let claims = JwtClaimsBuilder::default().expires_in(42).build()?;

    assert_eq!(claims.exp, expected_exp.timestamp());
    Ok(())
}

#[test]
fn claims_test_builder_not_before() -> Result<(), HeimdallrError> {
    let expected_nbf = chrono::Utc::now().timestamp();

    let claims = JwtClaimsBuilder::default()
        .not_before(expected_nbf)
        .expires(i64::MAX)
        .build()?;

    assert_eq!(claims.nbf, expected_nbf);
    Ok(())
}

#[test]
fn builder_scenario_subject_and_relative_expiry() {
    let claims = JwtClaimsBuilder::new()
        .subject("alice".to_string())
        .expires_in(42)
        .build()
        .unwrap();
    assert_eq!(claims.sub.as_deref(), Some("alice"));
    assert_eq!(claims.exp - claims.iat, 42);
    assert!(claims.nbf < claims.exp);
}

#[test]
fn builder_without_expiry_fails() {
    let r = JwtClaimsBuilder::new().subject("alice".to_string()).build();
    match r {
        Err(e) => assert_eq!(e.message(), "Expiration must be initialized"),
        Ok(_) => panic!("a builder without an expiry must not build"),
    }
}

#[test]
fn builder_rejects_expiry_at_or_before_not_before() {
    let r = JwtClaimsBuilder::new().not_before(100).expires(100).build();
    match r {
        Err(HeimdallrError::JwtError(m)) => {
            assert_eq!(m, "Expiration must lie after the not-before time")
        }
        Ok(_) => panic!("an expiry at the not-before time must not build"),
    }
}

#[test]
fn builder_rejects_reserved_extension_key() {
    let r = JwtClaimsBuilder::new()
        .expires(1000)
        .not_before(1)
        .add_claim("exp".to_string(), "1".to_string())
        .build();
    match r {
        Err(HeimdallrError::JwtError(m)) => {
            assert_eq!(m, "Extension claims may not use a fixed field name")
        }
        Ok(_) => panic!("a reserved extension key must not build"),
    }
}

#[test]
fn builder_extension_last_write_wins() {
    let claims = JwtClaimsBuilder::new()
        .expires(1000)
        .not_before(1)
        .add_claim("role".to_string(), "user".to_string())
        .add_claim("team".to_string(), "blue".to_string())
        .add_claim("role".to_string(), "admin".to_string())
        .build()
        .unwrap();
    assert_eq!(
        claims.extra,
        vec![
            ("role".to_string(), "admin".to_string()),
            ("team".to_string(), "blue".to_string()),
        ]
    );
}

#[test]
fn claims_new_is_zeroed() {
    let c = JwtClaims::new();
    assert_eq!(c.exp, 0);
    assert_eq!(c.nbf, 0);
    assert_eq!(c.iat, 0);
    assert!(c.iss.is_none() && c.sub.is_none() && c.aud.is_none() && c.jti.is_none());
    assert!(c.extra.is_empty());
}

#[test]
fn claims_build_starts_empty_builder() {
    let claims = JwtClaims::build().expires(7).not_before(2).build().unwrap();
    assert_eq!(claims.exp, 7);
    assert_eq!(claims.nbf, 2);
}
