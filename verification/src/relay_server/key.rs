//! The key that requests have to show.

use vstd::prelude::*;

verus! {

/// What `base64::decode` reads a text as: bytes, or nothing where it is no base64.
pub uninterp spec fn base64_decoded(text: Seq<char>) -> Option<Seq<u8>>;

/// What `base64::encode` writes bytes as.
pub uninterp spec fn base64_encoded(bytes: Seq<u8>) -> Seq<char>;

/// `base64::decode` reads the standard alphabet.
#[verifier::external_body]
fn base64_decode(text: &str) -> (out: Option<Vec<u8>>)
    ensures
        (match out { Some(bytes) => Some(bytes@), None => None }) == base64_decoded(text@),
{
    base64::decode(text).ok()
}

/// `base64::encode` writes the standard alphabet with padding: four characters for three bytes
/// or what is left of them, and what `base64::decode` reads back.
#[verifier::external_body]
fn base64_encode(bytes: &[u8]) -> (out: String)
    requires
        bytes@.len() <= usize::MAX / 2,
    ensures
        out@ == base64_encoded(bytes@),
        out@.len() == (bytes@.len() + 2) / 3 * 4,
        base64_decoded(out@) == Some(bytes@),
{
    base64::encode(bytes)
}

/// `sodiumoxide::crypto::sign::SECRETKEYBYTES`, the length of an Ed25519 secret key.
#[verifier::external_body]
fn secret_key_bytes() -> (n: usize)
    ensures
        n == 64,
{
    sodiumoxide::crypto::sign::SECRETKEYBYTES
}

/// The public half of a secret key: its second half. Bytes of another length are no secret key.
pub open spec fn public_half_of(decoded: Option<Seq<u8>>) -> Option<Seq<u8>> {
    match decoded {
        Some(bytes) => if bytes.len() == 64 {
            Some(bytes.skip(32))
        } else {
            None
        },
        None => None,
    }
}

/// The key that stands for a configured key: for a secret key its public half.
pub open spec fn public_key(key: Seq<char>) -> Seq<char> {
    match public_half_of(base64_decoded(key)) {
        Some(half) => base64_encoded(half),
        None => key,
    }
}

/// Whether a key asks for a generated one.
pub open spec fn asks_for_generated(key: Seq<char>) -> bool {
    key == "-"@ || key == "_"@
}

/// The public half of what a key was read as, if that is a secret key.
pub fn public_half(decoded: Option<Vec<u8>>) -> (out: Option<Vec<u8>>)
    ensures
        (match out { Some(half) => Some(half@), None => None }) == public_half_of(
            (match decoded { Some(bytes) => Some(bytes@), None => None }),
        ),
{
    match decoded {
        Some(bytes) => {
            let n: usize = secret_key_bytes();
            if bytes.len() == n {
                let mut half: Vec<u8> = Vec::new();
                for i in n / 2..n
                    invariant
                        n == 64,
                        bytes.len() == n,
                        half@ == bytes@.subrange(32, i as int),
                {
                    half.push(bytes[i]);
                }
                assert(half@ == bytes@.skip(32));
                Some(half)
            } else {
                None
            }
        },
        None => None,
    }
}

/// Whether a key is one of the two that ask for a generated key.
pub fn wants_generated(key: &str) -> (yes: bool)
    ensures
        yes == asks_for_generated(key@),
{
    key.eq("-") || key.eq("_")
}

/// The server's key: for a secret key its public half, for `-` and `_` the public key of a
/// generated pair, and else the key itself. A pair is generated for no other key.
pub fn get_server_sk<F: FnOnce() -> String>(key: &str, generate: F) -> (out: String)
    requires
        asks_for_generated(public_key(key@)) ==> generate.requires(()),
    ensures
        asks_for_generated(public_key(key@)) ==> generate.ensures((), out),
        !asks_for_generated(public_key(key@)) ==> out@ == public_key(key@),
        public_half_of(base64_decoded(key@)) is Some ==> {
            &&& !asks_for_generated(public_key(key@))
            &&& base64_decoded(out@) == public_half_of(base64_decoded(key@))
            &&& public_key(out@) == out@
        },
{
    let key = match public_half(base64_decode(key)) {
        Some(half) => {
            let out = base64_encode(half.as_slice());
            proof {
                reveal_strlit("-");
                reveal_strlit("_");
            }
            out
        },
        None => key.to_owned(),
    };
    if wants_generated(key.as_str()) {
        generate()
    } else {
        key
    }
}

} // verus!
