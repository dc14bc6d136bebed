//! Laws of the server's key.

use crate::relay_server::key::{
    base64_decoded, base64_encoded, get_server_sk, public_half, wants_generated,
};
use vstd::prelude::*;

verus! {

/// Of 64 bytes the public half is the last 32, in their order; other bytes have none.
pub proof fn lemma_public_half(decoded: Option<Vec<u8>>, out: Option<Vec<u8>>)
    requires
        call_ensures(public_half, (decoded,), out),
    ensures
        out is Some <==> decoded is Some && decoded->0@.len() == 64,
        out matches Some(half) ==> half@.len() == 32 && forall|i: int|
            0 <= i < 32 ==> half@[i] == #[trigger] decoded->0@[32 + i],
{
    if let Some(half) = out {
        assert forall|i: int| 0 <= i < 32 implies half@[i] == #[trigger] decoded->0@[32 + i] by {
            assert(half@ == decoded->0@.skip(32));
        }
    }
}

/// Just two keys ask for a generated one.
pub proof fn lemma_two_keys_ask(key: &str, yes: bool)
    requires
        call_ensures(wants_generated, (key,), yes),
    ensures
        yes <==> key@.len() == 1 && (key@[0] == '-' || key@[0] == '_'),
{
    reveal_strlit("-");
    reveal_strlit("_");
    assert(key@.len() == 1 && key@[0] == '-' ==> key@ =~= "-"@);
    assert(key@.len() == 1 && key@[0] == '_' ==> key@ =~= "_"@);
}

/// A key that is the base64 of 64 bytes gives the base64 of the last 32. Any other key gives
/// itself, but for the two that ask for a generated one, which give what is generated.
pub proof fn lemma_servers_key<F: FnOnce() -> String>(key: &str, generate: F, out: String)
    requires
        call_ensures(get_server_sk::<F>, (key, generate), out),
    ensures
        match base64_decoded(key@) {
            Some(bytes) if bytes.len() == 64 => {
                &&& out@ == base64_encoded(bytes.subrange(32, 64))
                &&& base64_decoded(out@) == Some(bytes.subrange(32, 64))
            },
            _ => {
                &&& key@ == seq!['-'] || key@ == seq!['_'] ==> generate.ensures((), out)
                &&& key@ != seq!['-'] && key@ != seq!['_'] ==> out@ == key@
            },
        },
{
    reveal_strlit("-");
    reveal_strlit("_");
    assert("-"@ =~= seq!['-'] && "_"@ =~= seq!['_']);
    if let Some(bytes) = base64_decoded(key@) {
        if bytes.len() == 64 {
            assert(bytes.skip(32) =~= bytes.subrange(32, 64));
        }
    }
}

} // verus!
