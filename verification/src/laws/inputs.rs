//! What the operations take: all of their inputs, but for what cannot be counted or held.

use crate::database;
use crate::jwt::{generate_token, generate_token_at, verify_token};
use crate::peer::{db_url, finish_update, DbHome, Peer, PeerInfo, PeerMap, SocketAddr};
use crate::relay_server::address::{
    forwarded_addr, parse_port, session_addr, session_id, websocket_port,
};
use crate::relay_server::command::{list_reply, parse_command, scaled_reply, Command};
use crate::relay_server::key::{base64_decoded, get_server_sk, public_half};
use crate::relay_server::pairing::RelayRequest;
use crate::relay_server::params::{Params, Scaled};
use crate::relay_server::session::{DataStep, RelaySession, TickStep};
use crate::relay_server::usage::{usage_reply, usage_rows, UsageRow};
use crate::relay_server::{ListKind, RelayServer};
use crate::text::{decimal, parse_number, split_fields, split_first_fields, split_on};
use vstd::prelude::*;

verus! {

/// Any text can be split, and any text can be read as a number.
pub proof fn lemma_texts_are_taken(s: &str, sep: char, n: u64)
    ensures
        call_requires(split_on, (s, sep)),
        call_requires(split_fields, (s,)),
        call_requires(split_first_fields, (s,)),
        call_requires(decimal, (n,)),
        call_requires(parse_number, (s, n)),
        call_requires(parse_command, (s,)),
        call_requires(parse_port, (s,)),
{
}

/// Any connection is decided on, any request for a relay is taken, and any wait and any session
/// can be ended.
pub proof fn lemma_requests_are_taken(
    key: &str,
    request: &RelayRequest,
    ip: &str,
    port: u16,
    ws: bool,
    loopback: bool,
    insert_id: u64,
)
    ensures
        forall|server: &RelayServer| #[trigger]
            call_requires(RelayServer::handle_connection, (server, ws, loopback, ip)),
        forall|server: &mut RelayServer| #[trigger]
            call_requires(RelayServer::make_pair, (server, key, request, ip, port, ws)),
        forall|server: &mut RelayServer| #[trigger]
            call_requires(RelayServer::expire, (server, ip, insert_id)),
        forall|server: &mut RelayServer| #[trigger]
            call_requires(RelayServer::end_relay, (server, ip)),
        call_requires(session_id, (ip, port)),
        port <= 65533 ==> call_requires(websocket_port, (port,)),
{
}

/// A session can begin at any time. Data is taken as long as it can be counted, and a look can be
/// taken at any time, unless the clock has run back.
pub proof fn lemma_sessions_are_taken(now: u64, len: usize, ip: String, id: String)
    ensures
        forall|server: &RelayServer| #[trigger]
            call_requires(RelayServer::start_session, (server, ip, id, now)),
        forall|s: &RelaySession| #[trigger] call_requires(RelaySession::has_room, (s, len)),
        forall|s: &mut RelaySession|
            s.elapsed <= s.tm / 1_000_000 && s.total_s <= s.total && (s.total_s > 0 ==> s.tm
                <= s.last_recv_time) && s.tm <= now && s.last_recv_time <= now && s.last_ip_check
                <= now && s.total + 8 * len <= u64::MAX ==> #[trigger] call_requires(
                RelaySession::on_data,
                (s, now, len),
            ),
        forall|server: &mut RelayServer, s: &mut RelaySession|
            s.elapsed <= s.tm / 1_000_000 && s.total_s <= s.total && (s.total_s > 0 ==> s.tm
                <= s.last_recv_time) && s.tm <= now && s.last_recv_time <= now && s.last_ip_check
                <= now ==> #[trigger] call_requires(RelayServer::relay_tick, (server, s, now)),
{
}

/// What a session must be for data and looks, it is when it begins and after each of them.
pub proof fn lemma_sessions_go_on(now: u64, len: usize)
    ensures
        forall|server: &RelayServer, ip: String, id: String, s: RelaySession| #[trigger]
            call_ensures(RelayServer::start_session, (server, ip, id, now), s) ==> {
                &&& s.elapsed <= s.tm / 1_000_000 && s.total_s <= s.total
                &&& s.total_s > 0 ==> s.tm <= s.last_recv_time
                &&& s.tm <= now && s.last_recv_time <= now && s.last_ip_check <= now
            },
        forall|s: &mut RelaySession, step: DataStep| #[trigger]
            call_ensures(RelaySession::on_data, (s, now, len), step) ==> {
                &&& final(s).elapsed <= final(s).tm / 1_000_000 && final(s).total_s
                    <= final(s).total
                &&& final(s).total_s > 0 ==> final(s).tm <= final(s).last_recv_time
                &&& final(s).tm <= now && final(s).last_recv_time <= now && final(s).last_ip_check
                    <= now
            },
        forall|server: &mut RelayServer, s: &mut RelaySession, step: TickStep| #[trigger]
            call_ensures(RelayServer::relay_tick, (server, s, now), step) ==> {
                &&& final(s).elapsed <= final(s).tm / 1_000_000 && final(s).total_s
                    <= final(s).total
                &&& final(s).total_s > 0 ==> final(s).tm <= final(s).last_recv_time
                &&& final(s).tm <= now && final(s).last_recv_time <= now && final(s).last_ip_check
                    <= now
            },
{
}

/// Any list can be loaded, asked for and shown, and any parameter set and shown.
pub proof fn lemma_lists_and_parameters_are_taken(
    list: ListKind,
    text: &str,
    items: &Vec<String>,
    which: Scaled,
    value: u64,
    number: Option<u64>,
    command: &Command,
)
    ensures
        forall|server: &mut RelayServer| #[trigger]
            call_requires(RelayServer::load_list, (server, list, text)),
        forall|server: &RelayServer| #[trigger]
            call_requires(RelayServer::is_listed, (server, list, text)),
        forall|server: &mut RelayServer| #[trigger]
            call_requires(RelayServer::set_scaled, (server, which, number)),
        forall|params: &mut Params| #[trigger] call_requires(Params::set, (params, which, value)),
        forall|params: &Params| #[trigger] call_requires(Params::get, (params, which)),
        call_requires(list_reply, (items,)),
        call_requires(scaled_reply, (which, text)),
        call_requires(Command::fits, (command,)),
{
}

/// Any line can be carried out whose command fits.
pub proof fn lemma_lines_are_taken(cmd: &str, c: Command, fits: bool)
    requires
        call_ensures(parse_command, (cmd,), c),
        call_ensures(Command::fits, (&c,), fits),
        fits,
    ensures
        forall|server: &mut RelayServer| #[trigger]
            call_requires(RelayServer::check_cmd, (server, cmd)),
{
}

/// Any table can be made, and put into words with as many amounts of data as it has rows.
pub proof fn lemma_tables_are_taken(
    entries: &Vec<(String, (u64, u64, u64, u64))>,
    rows: &Vec<UsageRow>,
    megabytes: &Vec<String>,
)
    ensures
        call_requires(usage_rows, (entries,)),
        rows@.len() == megabytes@.len() ==> call_requires(usage_reply, (rows, megabytes)),
{
}

/// Any key is taken, with a generator that need not be callable unless the key asks for it.
pub proof fn lemma_keys_are_taken<F: FnOnce() -> String>(
    key: &str,
    generate: F,
    decoded: Option<Vec<u8>>,
)
    ensures
        generate.requires(()) ==> call_requires(get_server_sk::<F>, (key, generate)),
        base64_decoded(key@) is None && key@ != seq!['-'] && key@ != seq!['_'] ==> call_requires(
            get_server_sk::<F>,
            (key, generate),
        ),
        call_requires(public_half, (decoded,)),
{
    reveal_strlit("-");
    reveal_strlit("_");
    assert("-"@ =~= seq!['-'] && "_"@ =~= seq!['_']);
}

/// Any headers and any addresses are taken.
pub proof fn lemma_headers_are_taken(
    real_ip: Option<&[u8]>,
    forwarded_for: Option<&[u8]>,
    named: Option<SocketAddr>,
    caller: SocketAddr,
)
    ensures
        call_requires(forwarded_addr, (real_ip, forwarded_for)),
        call_requires(session_addr, (named, caller)),
{
}

/// Any registration is taken, of any peer, and any peer in memory can be asked for.
pub proof fn lemma_peers_are_taken<P, F: Fn(&P) -> Option<u64>>(
    addr: SocketAddr,
    uuid: Vec<u8>,
    pk: Vec<u8>,
    ip: String,
    now: u64,
    guid: Option<Vec<u8>>,
    row: database::Peer,
    info: PeerInfo,
    id: &str,
    stored: Option<P>,
    fresh: P,
    observe: F,
    updated: bool,
    home: &DbHome,
)
    ensures
        forall|peer: &mut Peer| #[trigger]
            call_requires(Peer::update_pk, (peer, addr, uuid, pk, ip, now)),
        forall|peer: &mut Peer| #[trigger] call_requires(Peer::finish_insert, (peer, guid)),
        call_requires(Peer::blank, (now,)),
        call_requires(Peer::from_row, (row, info, now)),
        call_requires(finish_update, (updated,)),
        call_requires(db_url, (Some(id), home)) && call_requires(db_url, (None::<&str>, home)),
        forall|map: &PeerMap<P>|
            map.wf() ==> #[trigger] call_requires(PeerMap::<P>::get_in_memory, (map, id)),
        forall|map: &mut PeerMap<P>|
            map.wf() ==> #[trigger] call_requires(PeerMap::<P>::get, (map, id, stored)),
        forall|map: &mut PeerMap<P>|
            map.wf() ==> #[trigger] call_requires(PeerMap::<P>::get_or, (map, id, stored, fresh)),
        forall|map: &mut PeerMap<P>|
            map.wf() && (forall|p: &P| #[trigger] observe.requires((p,)))
                ==> #[trigger] call_requires(
                PeerMap::<P>::cleanup_memory::<F>,
                (map, now, observe),
            ),
{
}

/// Any setting and any number of rows is taken.
pub proof fn lemma_rows_are_taken(setting: Option<&str>, guid: Vec<u8>, rows: u64, url: &str)
    ensures
        call_requires(database::max_connections, (setting,)),
        call_requires(database::insert_peer, (guid, rows)),
        call_requires(database::update_pk, (rows,)),
        call_requires(database::new_guid, ()),
        call_requires(database::DbPool::new, (url,)),
{
}

/// A token can be asked for, for any user, time and secret, and any token can be shown.
pub proof fn lemma_tokens_are_taken(
    user_id: u32,
    exp_secs: i64,
    now: i64,
    token: &str,
    secret: &str,
)
    ensures
        call_requires(generate_token, (user_id, exp_secs, secret)),
        0 <= now <= 8_210_266_876_799 ==> call_requires(
            generate_token_at,
            (user_id, exp_secs, now, secret),
        ),
        call_requires(verify_token, (token, secret)),
{
}

} // verus!
