//! Laws of peers and of the peers in memory.

use crate::database;
use crate::peer::{
    db_url, finish_update, swept, DbHome, Peer, PeerInfo, PeerMap, PkWrite, RegisterPkResult,
    SocketAddr,
};
use vstd::prelude::*;

verus! {

/// After a registration the peer's socket address, uuid, key, address as text and time of
/// registration are those that were registered, whatever the peer held before. Its row, its
/// address of version 6 and the count of its registrations stay as they are.
pub proof fn lemma_peer_is_what_it_registered(
    addr: SocketAddr,
    uuid: Vec<u8>,
    pk: Vec<u8>,
    ip: String,
    now: u64,
)
    ensures
        forall|peer: &mut Peer, write: PkWrite| #[trigger]
            call_ensures(Peer::update_pk, (peer, addr, uuid, pk, ip, now), write) ==> {
                &&& final(peer).socket_addr == addr
                &&& final(peer).uuid == uuid
                &&& final(peer).pk == pk
                &&& final(peer).info.ip == ip
                &&& final(peer).last_reg_time == now
                &&& final(peer).guid == peer.guid
                &&& final(peer).socket_addr_v6 == peer.socket_addr_v6
                &&& final(peer).reg_pk == peer.reg_pk
            },
{
}

/// Of two registrations the last one counts: the peer is then what it would be after the last one
/// alone.
pub proof fn lemma_last_registration_counts(
    addr1: SocketAddr,
    uuid1: Vec<u8>,
    pk1: Vec<u8>,
    ip1: String,
    now1: u64,
    addr2: SocketAddr,
    uuid2: Vec<u8>,
    pk2: Vec<u8>,
    ip2: String,
    now2: u64,
)
    ensures
        forall|a: &mut Peer, b: &mut Peer, c: &mut Peer, w1: PkWrite, w2: PkWrite, w3: PkWrite|
            #[trigger] call_ensures(Peer::update_pk, (a, addr1, uuid1, pk1, ip1, now1), w1)
                && #[trigger] call_ensures(Peer::update_pk, (b, addr2, uuid2, pk2, ip2, now2), w2)
                && #[trigger] call_ensures(Peer::update_pk, (c, addr2, uuid2, pk2, ip2, now2), w3)
                && *b == *final(a) && *c == *a ==> *final(b) == *final(c),
{
}

/// A registration is written to the peer's row if it has one, and else to a new one.
pub proof fn lemma_where_a_registration_is_written(
    addr: SocketAddr,
    uuid: Vec<u8>,
    pk: Vec<u8>,
    ip: String,
    now: u64,
)
    ensures
        forall|peer: &mut Peer, write: PkWrite| #[trigger]
            call_ensures(Peer::update_pk, (peer, addr, uuid, pk, ip, now), write) ==> {
                &&& write is Insert <==> peer.guid@.len() == 0
                &&& write matches PkWrite::Update(guid) ==> guid@ == peer.guid@
            },
{
}

/// The identifier of a new row becomes the peer's, and nothing else of it changes; where the
/// database failed nothing changes. The answer says which of the two it was.
pub proof fn lemma_end_of_a_registration(stored: Option<Vec<u8>>, updated: bool)
    ensures
        forall|peer: &mut Peer, answer: RegisterPkResult| #[trigger]
            call_ensures(Peer::finish_insert, (peer, stored), answer) ==> {
                &&& answer == RegisterPkResult::Registered <==> stored is Some
                &&& stored matches Some(guid) ==> *final(peer) == (Peer { guid, ..*peer })
                &&& stored is None ==> *final(peer) == *peer
            },
        forall|answer: RegisterPkResult| #[trigger]
            call_ensures(finish_update, (updated,), answer) ==> (answer
                == RegisterPkResult::Registered <==> updated),
{
}

/// A blank peer has no row, no key, no address and no registration since a time that counts as
/// long ago; a peer that is loaded has besides just what its row and its text say.
pub proof fn lemma_blank_and_loaded_peers(
    expired: u64,
    blank: Peer,
    row: database::Peer,
    info: PeerInfo,
    loaded: Peer,
)
    requires
        call_ensures(Peer::blank, (expired,), blank),
        call_ensures(Peer::from_row, (row, info, expired), loaded),
    ensures
        blank.guid@.len() == 0 && blank.uuid@.len() == 0 && blank.pk@.len() == 0,
        blank.info.ip@.len() == 0,
        blank.last_reg_time == expired && blank.reg_pk == (0u32, expired),
        blank.socket_addr matches SocketAddr::V4(ip, port) && ip@ == seq![0u8, 0, 0, 0] && port
            == 0,
        blank.socket_addr_v6 matches SocketAddr::V6(ip, port, flow, scope) && ip@
            == seq![0u16, 0, 0, 0, 0, 0, 0, 0] && port == 0 && flow == 0 && scope == 0,
        loaded.guid == row.guid && loaded.uuid == row.uuid && loaded.pk == row.pk,
        loaded.info == info,
        loaded.last_reg_time == expired && loaded.reg_pk == (0u32, expired),
        loaded.socket_addr matches SocketAddr::V4(ip, port) && ip@ == seq![0u8, 0, 0, 0] && port
            == 0,
        loaded.socket_addr_v6 matches SocketAddr::V6(ip, port, flow, scope) && ip@
            == seq![0u16, 0, 0, 0, 0, 0, 0, 0] && port == 0 && flow == 0 && scope == 0,
{
}

/// The database is where the setting says, whatever the place without one.
pub proof fn lemma_setting_names_the_database(setting: Option<&str>, home: &DbHome, url: String)
    requires
        call_ensures(db_url, (setting, home), url),
    ensures
        setting matches Some(text) ==> url@ == text@,
        setting is None ==> match *home {
            DbHome::Written => url@ == "./db_v2.sqlite3"@,
            DbHome::Plain => url@ == "db_v2.sqlite3"@,
            DbHome::Folder(path) => url@ == path@ + "\\db_v2.sqlite3"@,
        },
{
}

/// A copy of what is stored of a peer is the same, and without anything stored there is no address.
pub proof fn lemma_copies(info: &PeerInfo, copy: PeerInfo, empty: PeerInfo)
    requires
        call_ensures(PeerInfo::clone, (info,), copy),
        call_ensures(PeerInfo::default, (), empty),
    ensures
        copy.ip@ == info.ip@,
        empty.ip@.len() == 0,
{
}

/// At first no peer is in memory.
pub proof fn lemma_memory_is_empty_at_first<P>(map: PeerMap<P>)
    requires
        call_ensures(PeerMap::<P>::new, (), map),
    ensures
        map.wf(),
        map@.dom().is_empty(),
{
}

/// Asking for a peer in memory gives it if it is there, and nothing else.
pub proof fn lemma_peers_are_found<P>(
    map: &PeerMap<P>,
    id: &str,
    found: Option<&P>,
    yes: bool,
)
    requires
        call_ensures(PeerMap::<P>::get_in_memory, (map, id), found),
        call_ensures(PeerMap::<P>::is_in_memory, (map, id), yes),
    ensures
        yes == map@.contains_key(id@),
        found is Some == yes,
        found matches Some(p) ==> *p == map@[id@],
{
}

/// A peer that is in memory is what is got, whatever the database holds; one that is not is taken
/// from the database, is then in memory, and the others stay as they are.
pub proof fn lemma_what_is_got<P>(id: &str, stored: Option<P>)
    ensures
        forall|map: &mut PeerMap<P>, out: Option<&P>| #[trigger]
            call_ensures(PeerMap::<P>::get, (map, id, stored), out) ==> {
                let known = map@.contains_key(id@);
                &&& out is Some == (known || stored is Some)
                &&& known ==> final(map)@ == map@ && *(out->0) == map@[id@]
                &&& !known && stored is Some ==> final(map)@ == map@.insert(id@, stored->0) && *(
                out->0) == stored->0
                &&& !known && stored is None ==> final(map)@ == map@
            },
{
}

/// The same, with a fresh peer where the database has none.
pub proof fn lemma_what_is_got_or_made<P>(id: &str, stored: Option<P>, fresh: P)
    ensures
        forall|map: &mut PeerMap<P>, out: &P| #[trigger]
            call_ensures(PeerMap::<P>::get_or, (map, id, stored, fresh), out) ==> {
                let known = map@.contains_key(id@);
                let made = if stored is Some {
                    stored->0
                } else {
                    fresh
                };
                &&& known ==> final(map)@ == map@ && *out == map@[id@]
                &&& !known ==> final(map)@ == map@.insert(id@, made) && *out == made
            },
{
}

/// A peer leaves the memory if and only if it was seen to have registered ten minutes ago or more;
/// those that stay are as they were, and the number of those that went is told.
pub proof fn lemma_who_leaves_the_memory<P, F: Fn(&P) -> Option<u64>>(now: u64, observe: F)
    ensures
        forall|map: &mut PeerMap<P>, evicted: usize| #[trigger]
            call_ensures(PeerMap::<P>::cleanup_memory::<F>, (map, now, observe), evicted) ==> {
                &&& evicted == map@.len() - final(map)@.len()
                &&& exists|seen: Map<Seq<char>, Option<u64>>|
                    {
                        &&& #[trigger] swept(map@, observe, now, seen, final(map)@)
                        &&& forall|id: Seq<char>| #[trigger]
                            map@.contains_key(id) ==> {
                                &&& observe.ensures((&map@[id],), seen[id])
                                &&& final(map)@.contains_key(id) == !(seen[id] is Some && now
                                    - seen[id]->0 >= 600_000_000_000)
                            }
                        &&& forall|id: Seq<char>| #[trigger]
                            final(map)@.contains_key(id) ==> map@.contains_key(id)
                                && final(map)@[id] == map@[id]
                    }
            },
{
}

} // verus!
