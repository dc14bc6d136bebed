//! Laws of connections and of pairs.

use crate::relay_server::pairing::{Admission, PairStep, RelayRequest};
use crate::relay_server::{RelayServer, ServerView};
use crate::text::digits;
use vstd::prelude::*;

verus! {

/// A connection from the machine itself that is no websocket sends a command; any other one is
/// turned away exactly if its address is on the blocklist.
pub proof fn lemma_admission(
    server: &RelayServer,
    ws: bool,
    loopback: bool,
    ip: &str,
    what: Admission,
)
    requires
        call_ensures(RelayServer::handle_connection, (server, ws, loopback, ip), what),
    ensures
        what == Admission::Command <==> loopback && !ws,
        what == Admission::Blocked <==> (ws || !loopback) && server@.blocklist.contains(ip@),
        what == Admission::Relay <==> (ws || !loopback) && !server@.blocklist.contains(ip@),
{
}

/// A request is dropped if and only if the server has a key and the request shows another one, or
/// the request has no uuid. Every other one waits where nobody waits under its uuid, and is paired
/// where somebody does. A request that is dropped changes nothing.
pub proof fn lemma_who_is_dropped(
    key: &str,
    request: &RelayRequest,
    ip: &str,
    port: u16,
    ws: bool,
)
    ensures
        forall|server: &mut RelayServer, step: PairStep| #[trigger]
            call_ensures(RelayServer::make_pair, (server, key, request, ip, port, ws), step) ==> {
                let dropped = key@.len() > 0 && request.licence_key@ != key@
                    || request.uuid@.len() == 0;
                let waits = server@.peers.contains_key(request.uuid@);
                &&& step is Dropped == dropped
                &&& step is Paired == (!dropped && waits)
                &&& step is Waiting == (!dropped && !waits)
                &&& dropped ==> final(server)@ == server@
            },
{
}

/// A request that waits gets the next number and is entered under its uuid with that number; a
/// request that is paired takes the waiting one out, is told its number, opens an account of
/// zeros under its own address and port, and sends without frames if neither came over a
/// websocket. Nothing else changes.
pub proof fn lemma_what_a_request_does(
    key: &str,
    request: &RelayRequest,
    ip: &str,
    port: u16,
    ws: bool,
)
    ensures
        forall|server: &mut RelayServer, step: PairStep| #[trigger]
            call_ensures(RelayServer::make_pair, (server, key, request, ip, port, ws), step) ==> {
                let (before, after) = (server@, final(server)@);
                match step {
                    PairStep::Dropped => true,
                    PairStep::Waiting { insert_id } => {
                        &&& insert_id == before.next_insert_id
                        &&& after.peers == before.peers.insert(request.uuid@, (insert_id, ws))
                        &&& after.next_insert_id == (if insert_id == u64::MAX {
                            0
                        } else {
                            insert_id + 1
                        })
                        &&& after == (ServerView {
                            peers: after.peers,
                            next_insert_id: after.next_insert_id,
                            ..before
                        })
                    },
                    PairStep::Paired { peer, id, raw } => {
                        &&& before.peers[request.uuid@].0 == peer
                        &&& raw == (!ws && !before.peers[request.uuid@].1)
                        &&& id@ == ip@.push(':') + digits(port as nat)
                        &&& after.peers == before.peers.remove(request.uuid@)
                        &&& after.usage == before.usage.insert(id@, (0u64, 0u64, 0u64, 0u64))
                        &&& after == (ServerView {
                            peers: after.peers,
                            usage: after.usage,
                            ..before
                        })
                    },
                }
            },
{
    reveal_strlit(":");
    assert(ip@ + ":"@ =~= ip@.push(':'));
}

/// The end of a wait takes out the entry of that insertion under that uuid, if it is there, and
/// leaves everything else as it is.
pub proof fn lemma_what_the_end_of_a_wait_does(uuid: &str, insert_id: u64)
    ensures
        forall|server: &mut RelayServer, done: ()| #[trigger]
            call_ensures(RelayServer::expire, (server, uuid, insert_id), done) ==> {
                let (before, after) = (server@, final(server)@);
                let there = before.peers.contains_key(uuid@) && before.peers[uuid@].0 == insert_id;
                &&& there ==> after.peers == before.peers.remove(uuid@)
                &&& !there ==> after.peers == before.peers
                &&& after == (ServerView { peers: after.peers, ..before })
            },
{
}

/// The end of a session closes its account and leaves everything else as it is.
pub proof fn lemma_what_the_end_of_a_session_does(id: &str)
    ensures
        forall|server: &mut RelayServer, done: ()| #[trigger]
            call_ensures(RelayServer::end_relay, (server, id), done) ==> {
                let (before, after) = (server@, final(server)@);
                &&& after.usage == before.usage.remove(id@)
                &&& after == (ServerView { usage: after.usage, ..before })
            },
{
}

} // verus!
