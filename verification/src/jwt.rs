//! Tokens that name a user for a limited time.

use jsonwebtoken::errors::ErrorKind;
use jsonwebtoken::{decode, encode, Algorithm, DecodingKey, EncodingKey, Header, Validation};
use serde_json::value::RawValue;
use serde_json::Value;
use std::collections::HashMap;
use vstd::prelude::*;

verus! {

/// The claims of a token.
#[derive(Debug, PartialEq, Eq, Structural)]
pub struct Claims {
    /// The user.
    pub user_id: u32,
    /// When the token expires, in seconds since the Unix epoch.
    pub exp: usize,
}

/// Why a token is not accepted, in the words of the `jsonwebtoken` crate.
#[derive(Debug)]
pub enum TokenError {
    /// It is a signed token, but its time is over.
    Expired(String),
    /// It is no token that is signed with the secret.
    Invalid(String),
}

impl Clone for Claims {
    fn clone(&self) -> (copy: Self)
        ensures
            copy == *self,
    {
        Claims { user_id: self.user_id, exp: self.exp }
    }
}

/// The earliest point in time of the `chrono` crate, in seconds since the Unix epoch.
pub const MIN_TIMESTAMP: i64 = -8_334_601_228_800;

/// The latest point in time of the `chrono` crate, in seconds since the Unix epoch.
pub const MAX_TIMESTAMP: i64 = 8_210_266_876_799;

/// The token that `jsonwebtoken::encode` makes of two claims and a secret.
pub uninterp spec fn signed_token(user_id: u32, exp: u64, secret: Seq<char>) -> Seq<char>;

/// What `jsonwebtoken::decode` finds in a token, apart from whether its time is over: the user and
/// the expiry, each where it is an unsigned number, or in words why the token is refused. It is
/// where it is not signed with the secret, or where its claims are no JSON object or name the
/// expiry twice. Where the user is named twice, the last one counts.
pub uninterp spec fn token_payload(token: Seq<char>, secret: Seq<char>) -> Result<
    (Option<u64>, Option<u64>),
    Seq<char>,
>;

/// `chrono::Utc::now` reads the clock, which nothing is said of but its range: from the Unix
/// epoch on.
#[verifier::external_body]
fn utc_now() -> (now: i64)
    ensures
        0 <= now <= MAX_TIMESTAMP,
{
    chrono::Utc::now().timestamp()
}

/// `chrono::DateTime::checked_add_signed` adds seconds to a point in time, within its range.
#[verifier::external_body]
fn add_seconds(now: i64, seconds: i64) -> (out: Option<i64>)
    requires
        MIN_TIMESTAMP <= now <= MAX_TIMESTAMP,
    ensures
        out == (if MIN_TIMESTAMP <= now + seconds <= MAX_TIMESTAMP {
            Some((now + seconds) as i64)
        } else {
            None
        }),
{
    let span = chrono::Duration::try_seconds(seconds)?;
    let sum = chrono::DateTime::from_timestamp(now, 0)?.checked_add_signed(span)?;
    Some(sum.timestamp())
}

/// `jsonwebtoken::encode`, with the default header and a secret, signs with HMAC and SHA-256,
/// which does not fail. `jsonwebtoken::decode` finds in the token what was put into it.
#[verifier::external_body]
fn jwt_encode(user_id: u32, exp: u64, secret: &str) -> (out: Result<String, String>)
    ensures
        match out {
            Ok(token) => {
                &&& token@ == signed_token(user_id, exp, secret@)
                &&& token@.len() > 0
                &&& token_payload(token@, secret@) == Ok::<(Option<u64>, Option<u64>), Seq<char>>(
                    (Some(user_id as u64), Some(exp)),
                )
            },
            Err(_) => false,
        },
{
    let mut claims = serde_json::Map::new();
    claims.insert("user_id".to_owned(), Value::from(user_id));
    claims.insert("exp".to_owned(), Value::from(exp));
    let key = EncodingKey::from_secret(secret.as_bytes());
    encode(&Header::default(), &claims, &key).map_err(|e| e.to_string())
}

/// For how many seconds after its expiry `jsonwebtoken::decode` still accepts a token.
pub const LEEWAY: u64 = 60;

/// Whether the time of a token is over when the clock shows `now`.
pub open spec fn is_over(exp: u64, now: nat) -> bool {
    exp + LEEWAY < now
}

/// `out` is what comes of decoding a token when the clock shows `now`, given what there is to be
/// found in the token. An expiry that is no unsigned number may be a fraction: whether that is
/// over is left open.
pub open spec fn is_decoding(
    payload: Result<(Option<u64>, Option<u64>), Seq<char>>,
    now: nat,
    out: Result<(Option<u64>, Option<u64>), TokenError>,
) -> bool {
    match payload {
        Err(why) => out matches Err(TokenError::Invalid(text)) && text@ == why,
        Ok((user_id, exp)) => match out {
            Ok(found) => found == (user_id, exp) && !(exp matches Some(exp) && is_over(exp, now)),
            Err(TokenError::Expired(text)) => text@ == "ExpiredSignature"@ && (exp matches Some(exp)
                ==> is_over(exp, now)),
            Err(TokenError::Invalid(_)) => false,
        },
    }
}

/// `jsonwebtoken::decode`, with its validation for HMAC and SHA-256 but for the claims that it
/// wants, finds the claims of a signed token, or that the token's time is over by the clock, which
/// it is a minute after the expiry. `serde_json::from_str` reads the user and the expiry as
/// numbers. Nothing is said of what the clock shows, but that the last point in time is never
/// over.
#[verifier::external_body]
fn jwt_decode(token: &str, secret: &str) -> (out: Result<(Option<u64>, Option<u64>), TokenError>)
    ensures
        (exists|now: nat| #[trigger] is_decoding(token_payload(token@, secret@), now, out)),
        token_payload(token@, secret@) matches Ok((_, Some(exp))) && exp == u64::MAX ==> out is Ok,
{
    let mut validation = Validation::new(Algorithm::HS256);
    validation.required_spec_claims.clear();
    let key = DecodingKey::from_secret(secret.as_bytes());
    match decode::<HashMap<String, Box<RawValue>>>(token, &key, &validation) {
        Ok(data) => Ok((
            data.claims.get("user_id").and_then(|v| serde_json::from_str(v.get()).ok()),
            data.claims.get("exp").and_then(|v| serde_json::from_str(v.get()).ok()),
        )),
        Err(e) => match e.kind() {
            ErrorKind::ExpiredSignature => Err(TokenError::Expired(e.to_string())),
            _ => Err(TokenError::Invalid(e.to_string())),
        },
    }
}

/// Whether an expiry is there and in range.
pub open spec fn fits_usize(exp: Option<u64>) -> bool {
    exp matches Some(exp) && exp <= usize::MAX
}

/// `jsonwebtoken::decode`, with its validation for HMAC and SHA-256 but for the claims that it
/// wants and for the expiry, finds the user of a signed token, and whether it has an expiry that
/// `serde_json::from_str` reads as a `usize`. The clock is not asked, and the expiry is not told.
#[verifier::external_body]
fn jwt_claimed(token: &str, secret: &str) -> (out: Result<(Option<u64>, bool), String>)
    ensures
        match token_payload(token@, secret@) {
            Err(why) => (out matches Err(text) && text@ == why),
            Ok((user_id, exp)) => out == Ok::<(Option<u64>, bool), String>(
                (user_id, fits_usize(exp)),
            ),
        },
{
    let mut validation = Validation::new(Algorithm::HS256);
    validation.validate_exp = false;
    validation.required_spec_claims.clear();
    let key = DecodingKey::from_secret(secret.as_bytes());
    match decode::<HashMap<String, Box<RawValue>>>(token, &key, &validation) {
        Ok(data) => Ok((
            data.claims.get("user_id").and_then(|v| serde_json::from_str(v.get()).ok()),
            data.claims.get("exp").is_some_and(|v| serde_json::from_str::<usize>(v.get()).is_ok()),
        )),
        Err(e) => Err(e.to_string()),
    }
}

/// The claims that a user and an expiry make, where both are there and in range.
pub open spec fn claims_of(found: (Option<u64>, Option<u64>)) -> Option<Claims> {
    match found {
        (Some(user_id), Some(exp)) => if user_id <= u32::MAX && exp <= usize::MAX {
            Some(Claims { user_id: user_id as u32, exp: exp as usize })
        } else {
            None
        },
        _ => None,
    }
}

/// The claims of a token that is signed with a secret.
pub open spec fn signed_claims(token: Seq<char>, secret: Seq<char>) -> Option<Claims> {
    match token_payload(token, secret) {
        Ok(found) => claims_of(found),
        Err(_) => None,
    }
}

/// The reply where there is no secret.
pub open spec fn no_secret() -> Seq<char> {
    "JWT secret is not configured (set RUSTDESK_API_JWT_KEY)"@
}

/// How the reply to a token that is not accepted begins.
pub open spec fn not_accepted() -> Seq<char> {
    "Token verification failed: "@
}

/// The reply to a token whose time is over.
pub open spec fn over_text() -> Seq<char> {
    not_accepted() + "ExpiredSignature"@
}

/// The reply to a token without the claims of a user.
pub open spec fn bad_claims_text() -> Seq<char> {
    not_accepted() + "JSON error: invalid claims"@
}

/// When a token expires that is made at `now` for so many seconds, if that is in range: one that
/// was over before the Unix epoch expires at the epoch.
pub open spec fn expiry_of(now: i64, exp_secs: i64) -> Option<usize> {
    if MIN_TIMESTAMP <= now + exp_secs <= MAX_TIMESTAMP {
        Some(
            if now + exp_secs < 0 {
                0
            } else {
                (now + exp_secs) as usize
            },
        )
    } else {
        None
    }
}

/// `out` is what comes of asking for a token at `now`.
pub open spec fn is_token_of(
    user_id: u32,
    exp_secs: i64,
    now: i64,
    secret: Seq<char>,
    out: Result<String, String>,
) -> bool {
    if secret.len() == 0 {
        out matches Err(text) && text@ == no_secret()
    } else {
        match expiry_of(now, exp_secs) {
            Some(exp) => {
                &&& out matches Ok(token)
                &&& token@ == signed_token(user_id, exp as u64, secret)
                &&& token@.len() > 0
                &&& signed_claims(token@, secret) == Some(Claims { user_id, exp })
            },
            None => out matches Err(text) && text@ == "JWT expiry is out of range"@,
        }
    }
}

/// `out` is what a token is answered when the clock shows `now`: the clock only matters where the
/// token has the claims of a user.
pub open spec fn is_answer_to(
    token: Seq<char>,
    secret: Seq<char>,
    now: nat,
    out: Result<Claims, String>,
) -> bool {
    if secret.len() == 0 {
        out matches Err(text) && text@ == no_secret()
    } else {
        match token_payload(token, secret) {
            Err(why) => out matches Err(text) && text@ == not_accepted() + why,
            Ok(found) => match claims_of(found) {
                None => out matches Err(text) && text@ == bad_claims_text(),
                Some(claims) => if is_over(claims.exp as u64, now) {
                    out matches Err(text) && text@ == over_text()
                } else {
                    out == Ok::<Claims, String>(claims)
                },
            },
        }
    }
}

/// The claims that were found in a token.
pub fn read_claims(user_id: Option<u64>, exp: Option<u64>) -> (out: Option<Claims>)
    ensures
        out == claims_of((user_id, exp)),
{
    match (user_id, exp) {
        (Some(user_id), Some(exp)) => if user_id <= u32::MAX as u64 && exp <= usize::MAX as u64 {
            Some(Claims { user_id: user_id as u32, exp: exp as usize })
        } else {
            None
        },
        _ => None,
    }
}

/// What a token is answered, given what was found in it.
pub fn verification(found: Result<(Option<u64>, Option<u64>), TokenError>) -> (out: Result<
    Claims,
    String,
>)
    ensures
        match found {
            Ok(found) => match claims_of(found) {
                Some(claims) => out == Ok::<Claims, String>(claims),
                None => out matches Err(text) && text@ == bad_claims_text(),
            },
            Err(TokenError::Expired(why)) => out matches Err(text) && text@ == not_accepted()
                + why@,
            Err(TokenError::Invalid(why)) => out matches Err(text) && text@ == not_accepted()
                + why@,
        },
{
    let mut text = "Token verification failed: ".to_owned();
    match found {
        Ok((user_id, exp)) => match read_claims(user_id, exp) {
            Some(claims) => Ok(claims),
            None => {
                text.append("JSON error: invalid claims");
                Err(text)
            },
        },
        Err(TokenError::Expired(why)) => {
            text.append(why.as_str());
            Err(text)
        },
        Err(TokenError::Invalid(why)) => {
            text.append(why.as_str());
            Err(text)
        },
    }
}

/// Why a token is refused whatever its time, given the user that it names and whether it has an
/// expiry, or in words why neither was found; nothing where it is not.
pub fn refusal(claimed: Result<(Option<u64>, bool), String>) -> (out: Option<String>)
    ensures
        match claimed {
            Err(why) => out matches Some(text) && text@ == not_accepted() + why@,
            Ok((user_id, has_exp)) => if has_exp && (user_id matches Some(user_id) && user_id
                <= u32::MAX) {
                out is None
            } else {
                out matches Some(text) && text@ == bad_claims_text()
            },
        },
{
    let mut text = "Token verification failed: ".to_owned();
    match claimed {
        Err(why) => {
            text.append(why.as_str());
            Some(text)
        },
        Ok((Some(user_id), true)) if user_id <= u32::MAX as u64 => None,
        Ok(_) => {
            text.append("JSON error: invalid claims");
            Some(text)
        },
    }
}

/// Makes a token at a given time.
pub fn generate_token_at(user_id: u32, exp_secs: i64, now: i64, secret: &str) -> (out: Result<
    String,
    String,
>)
    requires
        MIN_TIMESTAMP <= now <= MAX_TIMESTAMP,
    ensures
        is_token_of(user_id, exp_secs, now, secret@, out),
{
    if secret.is_empty() {
        return Err("JWT secret is not configured (set RUSTDESK_API_JWT_KEY)".to_owned());
    }
    match add_seconds(now, exp_secs) {
        Some(exp) => {
            let exp: usize = if exp < 0 {
                0
            } else {
                exp as usize
            };
            jwt_encode(user_id, exp as u64, secret)
        },
        None => Err("JWT expiry is out of range".to_owned()),
    }
}

/// Whether `now` is what the clock showed when it was read.
pub closed spec fn shown_by_the_clock(now: i64) -> bool {
    call_ensures(utc_now, (), now)
}

/// Whether `found` is what came of decoding a token, with the clock asked for whether its time is
/// over.
pub closed spec fn was_decoded(
    token: &str,
    secret: &str,
    found: Result<(Option<u64>, Option<u64>), TokenError>,
) -> bool {
    call_ensures(jwt_decode, (token, secret), found)
}

/// Makes a token for a user that expires after so many seconds.
pub fn generate_token(user_id: u32, exp_secs: i64, secret: &str) -> (out: Result<String, String>)
    ensures
        exists|now: i64|
            shown_by_the_clock(now) && 0 <= now <= MAX_TIMESTAMP && #[trigger] is_token_of(
                user_id,
                exp_secs,
                now,
                secret@,
                out,
            ),
        secret@.len() == 0 ==> (out matches Err(text) && text@ == no_secret()),
        secret@.len() > 0 && MIN_TIMESTAMP <= exp_secs <= 0 ==> out is Ok,
        out matches Ok(token) ==> (signed_claims(token@, secret@) matches Some(claims)
            && claims.user_id == user_id),
{
    let now: i64 = utc_now();
    let out = generate_token_at(user_id, exp_secs, now, secret);
    assert(is_token_of(user_id, exp_secs, now, secret@, out));
    out
}

/// Accepts a token that is signed with the secret, has the claims of a user and is not over, and
/// gives its claims. Whether its time is over is found by the clock.
pub fn verify_token(token: &str, secret: &str) -> (out: Result<Claims, String>)
    ensures
        exists|now: nat| #[trigger] is_answer_to(token@, secret@, now, out),
        secret@.len() > 0 && signed_claims(token@, secret@) is Some ==> exists|
            found: Result<(Option<u64>, Option<u64>), TokenError>,
        |
            #[trigger] was_decoded(token, secret, found) && match found {
                Ok(_) => out is Ok,
                Err(_) => out matches Err(text) && text@ == over_text(),
            },
        out matches Ok(claims) ==> signed_claims(token@, secret@) == Some(claims),
        secret@.len() > 0 ==> (token_payload(token@, secret@) matches Ok((_, Some(exp))) && exp
            == u64::MAX && signed_claims(token@, secret@) is Some ==> out is Ok),
{
    if secret.is_empty() {
        let out = Err("JWT secret is not configured (set RUSTDESK_API_JWT_KEY)".to_owned());
        assert(is_answer_to(token@, secret@, 0, out));
        return out;
    }
    if let Some(text) = refusal(jwt_claimed(token, secret)) {
        let out = Err(text);
        assert(is_answer_to(token@, secret@, 0, out));
        return out;
    }
    let found = jwt_decode(token, secret);
    assert(was_decoded(token, secret, found));
    let ghost now = choose|now: nat|
        #[trigger] is_decoding(token_payload(token@, secret@), now, found);
    let out = verification(found);
    assert(is_answer_to(token@, secret@, now, out));
    out
}

/// A token that was made for a user and an expiry has just these claims.
pub proof fn lemma_token_names_its_user(
    user_id: u32,
    exp_secs: i64,
    now: i64,
    secret: Seq<char>,
    out: Result<String, String>,
)
    requires
        is_token_of(user_id, exp_secs, now, secret, out),
        secret.len() > 0,
    ensures
        match expiry_of(now, exp_secs) {
            Some(exp) => out matches Ok(token) && signed_claims(token@, secret) == Some(
                Claims { user_id, exp },
            ),
            None => out is Err,
        },
{
}

/// A token that was made at `made_at` is accepted with its claims until a minute after its
/// expiry, and refused from then on.
pub proof fn lemma_token_lasts(
    user_id: u32,
    exp_secs: i64,
    made_at: i64,
    secret: Seq<char>,
    token: String,
    now: nat,
    answer: Result<Claims, String>,
)
    requires
        secret.len() > 0,
        is_token_of(user_id, exp_secs, made_at, secret, Ok(token)),
        is_answer_to(token@, secret, now, answer),
    ensures
        expiry_of(made_at, exp_secs) matches Some(exp) && if now <= exp + 60 {
            answer == Ok::<Claims, String>(Claims { user_id, exp })
        } else {
            answer matches Err(text) && text@ == over_text()
        },
{
}

/// A token whose lifetime ended more than a minute ago is refused, however long ago that was,
/// once the clock is past the first minute after the Unix epoch.
pub proof fn lemma_ended_token_is_refused(
    user_id: u32,
    exp_secs: i64,
    made_at: i64,
    secret: Seq<char>,
    token: String,
    now: nat,
    answer: Result<Claims, String>,
)
    requires
        secret.len() > 0,
        is_token_of(user_id, exp_secs, made_at, secret, Ok(token)),
        is_answer_to(token@, secret, now, answer),
        made_at + exp_secs <= usize::MAX,
        now > made_at + exp_secs + 60,
        now > 60,
    ensures
        answer matches Err(text) && text@ == over_text(),
{
    lemma_token_lasts(user_id, exp_secs, made_at, secret, token, now, answer);
}

} // verus!
