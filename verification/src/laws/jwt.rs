//! Laws of tokens.

use crate::jwt::{
    generate_token, generate_token_at, is_answer_to, is_token_of, over_text, read_claims, refusal,
    shown_by_the_clock, token_payload, verification, verify_token, was_decoded, Claims, TokenError,
};
use vstd::prelude::*;

verus! {

/// A token that is made at `now` for `exp_secs` seconds names the user and expires at the sum of
/// the two; one whose time was over before the Unix epoch expires at the epoch. Without a
/// secret, or where the sum is out of the range of dates, there is no token.
pub proof fn lemma_token_expires_at_the_sum(
    user_id: u32,
    exp_secs: i64,
    now: i64,
    secret: &str,
    out: Result<String, String>,
)
    requires
        call_ensures(generate_token_at, (user_id, exp_secs, now, secret), out),
        now + exp_secs <= usize::MAX,
    ensures
        out is Ok <==> secret@.len() > 0 && -8_334_601_228_800 <= now + exp_secs
            <= 8_210_266_876_799,
        out matches Ok(token) ==> {
            &&& token@.len() > 0
            &&& token_payload(token@, secret@) matches Ok((Some(user), Some(exp)))
            &&& user == user_id
            &&& now + exp_secs >= 0 ==> exp == now + exp_secs
            &&& now + exp_secs < 0 ==> exp == 0
        },
        secret@.len() == 0 ==> (out matches Err(text) && text@
            == "JWT secret is not configured (set RUSTDESK_API_JWT_KEY)"@),
{
}

/// A token that is made now expires at the sum of what the clock shows and its seconds.
pub proof fn lemma_token_expires_by_the_clock(
    user_id: u32,
    exp_secs: i64,
    secret: &str,
    out: Result<String, String>,
)
    requires
        call_ensures(generate_token, (user_id, exp_secs, secret), out),
    ensures
        secret@.len() == 0 ==> (out matches Err(text) && text@
            == "JWT secret is not configured (set RUSTDESK_API_JWT_KEY)"@),
        secret@.len() > 0 ==> exists|now: i64|
            {
                &&& shown_by_the_clock(now)
                &&& now >= 0
                &&& #[trigger] is_token_of(user_id, exp_secs, now, secret@, out)
                &&& out is Ok <==> -8_334_601_228_800 <= now + exp_secs <= 8_210_266_876_799
                &&& out matches Ok(token) ==> (token_payload(token@, secret@) matches Ok(
                    (Some(user), Some(exp)),
                ) && user == user_id && (now + exp_secs <= usize::MAX ==> exp == (if now
                    + exp_secs < 0 {
                    0
                } else {
                    now + exp_secs
                })))
            },
{
    if secret@.len() > 0 {
        let now = choose|now: i64|
            shown_by_the_clock(now) && 0 <= now <= 8_210_266_876_799 && #[trigger] is_token_of(
                user_id,
                exp_secs,
                now,
                secret@,
                out,
            );
        assert(is_token_of(user_id, exp_secs, now, secret@, out));
    }
}

/// A token is accepted, with the user and the expiry that it was made for, at every time up to a
/// minute after the sum of when it was made and its seconds, and at no later time.
pub proof fn lemma_token_lasts_its_seconds(
    user_id: u32,
    exp_secs: i64,
    made_at: i64,
    secret: &str,
    token: String,
    now: nat,
    answer: Result<Claims, String>,
)
    requires
        call_ensures(generate_token_at, (user_id, exp_secs, made_at, secret), Ok(token)),
        0 <= made_at + exp_secs <= usize::MAX,
        is_answer_to(token@, secret@, now, answer),
    ensures
        now <= made_at + exp_secs + 60 ==> (answer matches Ok(claims) && claims.user_id == user_id
            && claims.exp == made_at + exp_secs),
        now > made_at + exp_secs + 60 ==> (answer matches Err(text) && text@
            == "Token verification failed: "@ + "ExpiredSignature"@),
{
}

/// Of two tokens that are made at one time, the one with the longer lifetime expires later, by just
/// the difference.
pub proof fn lemma_longer_lifetimes_expire_later(
    user_id: u32,
    secs: i64,
    more: i64,
    now: i64,
    secret: &str,
    a: String,
    b: String,
)
    requires
        call_ensures(generate_token_at, (user_id, secs, now, secret), Ok(a)),
        call_ensures(generate_token_at, (user_id, more, now, secret), Ok(b)),
        0 <= now + secs,
        secs <= more,
        now + more <= usize::MAX,
    ensures
        ({
            &&& token_payload(a@, secret@) matches Ok((_, Some(first)))
            &&& token_payload(b@, secret@) matches Ok((_, Some(second)))
            &&& second - first == more - secs
        }),
{
}

/// A token is accepted only with the user and the expiry that are signed in it. With a user and an
/// expiry in range it is accepted or its time is over; with others, or not signed, it is
/// refused, and without a secret every token is.
pub proof fn lemma_only_signed_claims_are_accepted(
    token: &str,
    secret: &str,
    out: Result<Claims, String>,
)
    requires
        call_ensures(verify_token, (token, secret), out),
    ensures
        secret@.len() == 0 ==> (out matches Err(text) && text@
            == "JWT secret is not configured (set RUSTDESK_API_JWT_KEY)"@),
        out matches Ok(claims) ==> secret@.len() > 0 && token_payload(token@, secret@) == Ok::<
            (Option<u64>, Option<u64>),
            Seq<char>,
        >((Some(claims.user_id as u64), Some(claims.exp as u64))),
        secret@.len() > 0 ==> match token_payload(token@, secret@) {
            Err(why) => out matches Err(text) && text@ == "Token verification failed: "@ + why,
            Ok((Some(user), Some(exp))) => if user <= u32::MAX && exp <= usize::MAX {
                &&& out is Ok || (out matches Err(text) && text@ == "Token verification failed: "@
                    + "ExpiredSignature"@)
                &&& exp == u64::MAX ==> out is Ok
            } else {
                out matches Err(text) && text@ == "Token verification failed: "@
                    + "JSON error: invalid claims"@
            },
            Ok(_) => out matches Err(text) && text@ == "Token verification failed: "@
                + "JSON error: invalid claims"@,
        },
{
}

/// Whether the time of a token with the claims of a user is over is what came of decoding it, with
/// the clock asked: it is refused just where that found it to be over.
pub proof fn lemma_clock_decides(token: &str, secret: &str, out: Result<Claims, String>)
    requires
        call_ensures(verify_token, (token, secret), out),
        secret@.len() > 0,
        token_payload(token@, secret@) matches Ok((Some(user), Some(exp))) && user <= u32::MAX
            && exp <= usize::MAX,
    ensures
        exists|found: Result<(Option<u64>, Option<u64>), TokenError>|
            #[trigger] was_decoded(token, secret, found) && found is Ok == out is Ok,
{
    let found = choose|found: Result<(Option<u64>, Option<u64>), TokenError>|
        #[trigger] was_decoded(token, secret, found) && match found {
            Ok(_) => out is Ok,
            Err(_) => out matches Err(text) && text@ == over_text(),
        };
    assert(was_decoded(token, secret, found) && found is Ok == out is Ok);
}

/// Claims are read where both numbers are there and in range, and are then these numbers.
pub proof fn lemma_claims_are_read(user_id: Option<u64>, exp: Option<u64>, out: Option<Claims>)
    requires
        call_ensures(read_claims, (user_id, exp), out),
    ensures
        out is Some <==> user_id is Some && exp is Some && user_id->0 <= u32::MAX && exp->0
            <= usize::MAX,
        out matches Some(claims) ==> Some(claims.user_id as u64) == user_id && Some(
            claims.exp as u64,
        ) == exp,
{
}

/// What was found in a token is answered with the claims, and else in words.
pub proof fn lemma_answers(
    found: Result<(Option<u64>, Option<u64>), TokenError>,
    claimed: Result<(Option<u64>, bool), String>,
    out: Result<Claims, String>,
    why: Option<String>,
)
    requires
        call_ensures(verification, (found,), out),
        call_ensures(refusal, (claimed,), why),
    ensures
        out matches Ok(claims) ==> found == Ok::<(Option<u64>, Option<u64>), TokenError>(
            (Some(claims.user_id as u64), Some(claims.exp as u64)),
        ),
        found matches Ok((Some(user), Some(exp))) && user <= u32::MAX && exp <= usize::MAX
            ==> out is Ok,
        found matches Err(TokenError::Expired(text)) ==> (out matches Err(said) && said@
            == "Token verification failed: "@ + text@),
        found matches Err(TokenError::Invalid(text)) ==> (out matches Err(said) && said@
            == "Token verification failed: "@ + text@),
        why is None <==> (claimed matches Ok((Some(user), true)) && user <= u32::MAX),
        claimed matches Err(text) ==> (why matches Some(said) && said@
            == "Token verification failed: "@ + text@),
{
}

} // verus!
