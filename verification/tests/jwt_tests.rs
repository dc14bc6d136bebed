use hbbs::jwt::{
    generate_token, generate_token_at, read_claims, refusal, verification, verify_token,
    Claims, TokenError, MAX_TIMESTAMP, MIN_TIMESTAMP,
};
use serde_json::Value;

const SECRET: &str = "testjwt";

fn signed(claims: &serde_json::Map<String, Value>) -> String {
    jsonwebtoken::encode(
        &jsonwebtoken::Header::default(),
        claims,
        &jsonwebtoken::EncodingKey::from_secret(SECRET.as_bytes()),
    )
    .unwrap()
}

fn signed_text(claims: &str) -> String {
    let raw = serde_json::value::RawValue::from_string(claims.to_owned()).unwrap();
    jsonwebtoken::encode(
        &jsonwebtoken::Header::default(),
        &raw,
        &jsonwebtoken::EncodingKey::from_secret(SECRET.as_bytes()),
    )
    .unwrap()
}

fn claims(fields: &[(&str, Value)]) -> serde_json::Map<String, Value> {
    let mut map = serde_json::Map::new();
    for (name, value) in fields {
        map.insert(name.to_string(), value.clone());
    }
    map
}

#[test]
fn test_generate_token() {
    let token = generate_token(1, 3600, SECRET).unwrap();
    println!("Generated Token: {}", token);
    assert!(!token.is_empty(), "Generated token should not be empty");
}

#[test]
fn test_verify_token() {
    let token = generate_token(1, 2, SECRET).unwrap();
    println!(
        "Token : {:?}, now: {:?}",
        token,
        chrono::Utc::now().timestamp()
    );

    let result = verify_token(&token, SECRET);
    println!("Token Verification Result: {:?}", result);
    assert!(result.is_ok(), "Token should be valid");

    let claims = result.unwrap();
    assert_eq!(claims.user_id, 1);
}

#[test]
fn test_verify_expired_token() {
    // The leeway is 60 s, so a token that expired a second ago would still be accepted.
    let token = generate_token(1, -120, SECRET).unwrap();

    let result = verify_token(&token, SECRET);
    assert!(result.is_err(), "Expired token should fail verification");
    assert!(
        result.unwrap_err().contains("Token verification failed"),
        "Error should mention verification failure"
    );
}

#[test]
fn token_within_leeway_is_accepted() {
    let token = generate_token(7, -10, SECRET).unwrap();
    assert_eq!(verify_token(&token, SECRET).unwrap().user_id, 7);
}

#[test]
fn expired_token_names_the_reason() {
    let token = generate_token_at(3, 3600, 1_700_000_000, SECRET).unwrap();
    assert_eq!(
        verify_token(&token, SECRET).unwrap_err(),
        "Token verification failed: ExpiredSignature"
    );
}

#[test]
fn token_that_ended_before_the_epoch_is_refused() {
    let token = generate_token(1, -4_000_000_000, SECRET).unwrap();
    assert_eq!(
        verify_token(&token, SECRET).unwrap_err(),
        "Token verification failed: ExpiredSignature"
    );
    let at_epoch = signed(&claims(&[("user_id", Value::from(1u32)), ("exp", Value::from(0))]));
    assert_eq!(generate_token_at(1, -4_000_000_000, 1_700_000_000, SECRET).unwrap(), at_epoch);
    assert_eq!(generate_token_at(1, -5, 5, SECRET).unwrap(), at_epoch);
}

#[test]
fn token_lasts_for_a_minute_after_its_expiry() {
    let now = chrono::Utc::now().timestamp();
    let fresh = generate_token_at(1, 0, now - 50, SECRET).unwrap();
    let claims = Claims { user_id: 1, exp: (now - 50) as usize };
    assert_eq!(verify_token(&fresh, SECRET), Ok(claims));
    let stale = generate_token_at(1, 0, now - 61, SECRET).unwrap();
    assert!(verify_token(&stale, SECRET).is_err());
}

#[test]
fn other_claims_do_not_matter() {
    let token = signed_text("{\"note\":[1e999],\"user_id\":4,\"exp\":18446744073709551615}");
    assert_eq!(verify_token(&token, SECRET).unwrap().user_id, 4);
    let twice = signed_text("{\"user_id\":4,\"exp\":18446744073709551615,\"exp\":9}");
    assert!(verify_token(&twice, SECRET).is_err());
    let array = signed_text("[4,18446744073709551615]");
    assert!(verify_token(&array, SECRET).is_err());
    let fraction = signed_text("{\"user_id\":4,\"exp\":1e18}");
    assert_eq!(
        verify_token(&fraction, SECRET).unwrap_err(),
        "Token verification failed: JSON error: invalid claims"
    );
}

#[test]
fn token_has_the_known_form() {
    assert_eq!(
        generate_token_at(1, 3600, 1_700_000_000, SECRET).unwrap(),
        "eyJ0eXAiOiJKV1QiLCJhbGciOiJIUzI1NiJ9.eyJ1c2VyX2lkIjoxLCJleHAiOjE3MDAwMDM2MDB9.\
         fC_CcbUSk5OZWG5lrMvcKOz0oXRY3ZaiEHUe4oiI19I"
    );
}

#[test]
fn expiry_is_the_sum_of_clock_and_span() {
    let before = chrono::Utc::now().timestamp();
    let token = generate_token(u32::MAX, 500, SECRET).unwrap();
    let after = chrono::Utc::now().timestamp();
    let claims = verify_token(&token, SECRET).unwrap();
    assert_eq!(claims.user_id, u32::MAX);
    assert!(claims.exp as i64 >= before + 500 && claims.exp as i64 <= after + 500);
}

#[test]
fn no_secret_is_refused() {
    let text = "JWT secret is not configured (set RUSTDESK_API_JWT_KEY)";
    assert_eq!(generate_token(1, 3600, "").unwrap_err(), text);
    assert_eq!(generate_token_at(1, 3600, 0, "").unwrap_err(), text);
    assert_eq!(verify_token("a.b.c", "").unwrap_err(), text);
}

#[test]
fn other_secret_is_refused() {
    let token = generate_token(1, 3600, SECRET).unwrap();
    assert_eq!(
        verify_token(&token, "other").unwrap_err(),
        "Token verification failed: InvalidSignature"
    );
}

#[test]
fn malformed_token_is_refused() {
    assert_eq!(
        verify_token("nothing", SECRET).unwrap_err(),
        "Token verification failed: InvalidToken"
    );
}

#[test]
fn expiry_range_is_that_of_chrono() {
    assert_eq!(chrono::DateTime::<chrono::Utc>::MAX_UTC.timestamp(), MAX_TIMESTAMP);
    assert_eq!(chrono::DateTime::<chrono::Utc>::MIN_UTC.timestamp(), MIN_TIMESTAMP);
    let text = "JWT expiry is out of range";
    assert!(generate_token_at(1, 0, MAX_TIMESTAMP, SECRET).is_ok());
    assert_eq!(generate_token_at(1, 1, MAX_TIMESTAMP, SECRET).unwrap_err(), text);
    assert!(generate_token_at(1, 0, MIN_TIMESTAMP, SECRET).is_ok());
    assert_eq!(generate_token_at(1, -1, MIN_TIMESTAMP, SECRET).unwrap_err(), text);
    assert!(generate_token_at(1, MAX_TIMESTAMP, 0, SECRET).is_ok());
    assert!(generate_token_at(1, MIN_TIMESTAMP, 0, SECRET).is_ok());
    assert_eq!(generate_token_at(1, i64::MAX, 0, SECRET).unwrap_err(), text);
    assert_eq!(generate_token_at(1, i64::MIN, 0, SECRET).unwrap_err(), text);
    assert_eq!(generate_token(1, i64::MAX, SECRET).unwrap_err(), text);
}

#[test]
fn last_point_in_time_is_never_over() {
    let token = signed(&claims(&[
        ("user_id", Value::from(9u32)),
        ("exp", Value::from(u64::MAX)),
    ]));
    assert_eq!(
        verify_token(&token, SECRET),
        Ok(Claims { user_id: 9, exp: usize::MAX })
    );
}

#[test]
fn incomplete_claims_are_refused() {
    let text = "Token verification failed: JSON error: invalid claims";
    let far = Value::from(u64::MAX);
    let nobody = signed(&claims(&[("exp", far.clone())]));
    assert_eq!(verify_token(&nobody, SECRET).unwrap_err(), text);
    let wide = signed(&claims(&[("user_id", Value::from(1u64 << 32)), ("exp", far.clone())]));
    assert_eq!(verify_token(&wide, SECRET).unwrap_err(), text);
    let named = signed(&claims(&[("user_id", Value::from("1")), ("exp", far)]));
    assert_eq!(verify_token(&named, SECRET).unwrap_err(), text);
    let endless = signed(&claims(&[("user_id", Value::from(1u32))]));
    assert_eq!(verify_token(&endless, SECRET).unwrap_err(), text);
    let both = signed(&claims(&[("user_id", Value::from("1")), ("exp", Value::from(5))]));
    assert_eq!(verify_token(&both, SECRET).unwrap_err(), text);
}

#[test]
fn found_claims_are_read() {
    assert_eq!(read_claims(Some(5), Some(6)), Some(Claims { user_id: 5, exp: 6 }));
    assert_eq!(read_claims(Some(u32::MAX as u64 + 1), Some(6)), None);
    assert_eq!(read_claims(None, Some(6)), None);
    assert_eq!(read_claims(Some(5), None), None);
}

#[test]
fn refusals_come_before_the_clock() {
    assert_eq!(refusal(Ok((Some(u32::MAX as u64), true))), None);
    let text = "Token verification failed: JSON error: invalid claims";
    for claimed in [(None, true), (Some(1), false), (Some(1 << 32), true)] {
        assert_eq!(refusal(Ok(claimed)).unwrap(), text);
    }
    assert_eq!(
        refusal(Err("bad".to_owned())).unwrap(),
        "Token verification failed: bad"
    );
}

#[test]
fn verification_answers_what_was_found() {
    assert_eq!(verification(Ok((Some(5), Some(6)))), Ok(Claims { user_id: 5, exp: 6 }));
    assert_eq!(
        verification(Err(TokenError::Expired("late".to_owned()))),
        Err("Token verification failed: late".to_owned())
    );
    assert_eq!(
        verification(Err(TokenError::Invalid("bad".to_owned()))),
        Err("Token verification failed: bad".to_owned())
    );
    assert!(verification(Ok((None, None))).is_err());
}
