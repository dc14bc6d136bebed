//! The peers that the server knows: what it holds of each, and which of them it keeps in memory.
//!
//! Points in time are nanoseconds on a clock that does not run backwards.

use crate::database::{
    self, handed_on, has_guid, is_free, is_insert_step, new_row, rows_inserted, table_after_insert,
    table_after_update, InsertStep, Row,
};
use vstd::hash_map::StringHashMap;
use vstd::prelude::*;

verus! {

/// How long a change of address counts, in seconds.
pub const IP_CHANGE_DUR: u64 = 180;

/// Twice as long.
pub const IP_CHANGE_DUR_X2: u64 = 360;

/// The seconds of a day.
pub const DAY_SECONDS: u64 = 86_400;

/// How long an address stays blocked, in seconds.
pub const IP_BLOCK_DUR: u64 = 60;

/// After how many seconds without registration a peer leaves the memory.
pub const EVICT_AFTER_SECS: u64 = 600;

/// A socket address: by version 4 the octets and the port, by version 6 the segments, the port,
/// the flow information and the scope.
#[derive(Clone, Copy, Debug)]
pub enum SocketAddr {
    V4([u8; 4], u16),
    V6([u16; 8], u16, u32, u32),
}

/// What is stored of a peer as text.
#[derive(Debug)]
pub struct PeerInfo {
    pub ip: String,
}

/// A peer.
pub struct Peer {
    /// The address that the peer registered from.
    pub socket_addr: SocketAddr,
    /// The last external address of version 6 that the peer reported; port zero where there
    /// is none.
    pub socket_addr_v6: SocketAddr,
    /// When the peer last registered.
    pub last_reg_time: u64,
    /// The identifier of the peer's row in the database, empty where there is no row yet.
    pub guid: Vec<u8>,
    pub uuid: Vec<u8>,
    pub pk: Vec<u8>,
    pub info: PeerInfo,
    /// How often the peer registered a key, and since when.
    pub reg_pk: (u32, u64),
}

/// The answer to the registration of a key.
#[derive(Clone, Copy, Debug, PartialEq, Eq, Structural)]
pub enum RegisterPkResult {
    Registered,
    ServerError,
}

/// What is to be written to the database for the registration of a key.
pub enum PkWrite {
    /// A new row.
    Insert,
    /// The row with this identifier.
    Update(Vec<u8>),
}

/// A peer after the registration of a key.
pub open spec fn after_update_pk(
    peer: Peer,
    addr: SocketAddr,
    uuid: Vec<u8>,
    pk: Vec<u8>,
    ip: String,
    now: u64,
) -> Peer {
    Peer { socket_addr: addr, uuid, pk, last_reg_time: now, info: PeerInfo { ip }, ..peer }
}

/// A peer after its row was inserted.
pub open spec fn after_insert(peer: Peer, guid: Vec<u8>) -> Peer {
    Peer { guid, ..peer }
}

/// The row that the registration of a key is written to; none where it takes a new one.
pub open spec fn write_of(peer: Peer) -> Option<Seq<u8>> {
    if peer.guid@.len() == 0 {
        None
    } else {
        Some(peer.guid@)
    }
}

impl Clone for PeerInfo {
    fn clone(&self) -> (copy: Self)
        ensures
            copy == *self,
    {
        PeerInfo { ip: self.ip.clone() }
    }
}

impl Default for PeerInfo {
    fn default() -> (info: Self)
        ensures
            info.ip@ == Seq::<char>::empty(),
    {
        PeerInfo { ip: String::new() }
    }
}

impl Peer {
    /// Whether nothing is known of the peer but that it did not register since `expired`.
    pub open spec fn is_blank(self, expired: u64) -> bool {
        &&& self.socket_addr matches SocketAddr::V4(ip, port) && ip@ == seq![0u8, 0, 0, 0] && port
            == 0
        &&& self.socket_addr_v6 matches SocketAddr::V6(ip, port, flowinfo, scope_id) && ip@
            == seq![0u16, 0, 0, 0, 0, 0, 0, 0] && port == 0 && flowinfo == 0 && scope_id == 0
        &&& self.last_reg_time == expired
        &&& self.guid@.len() == 0
        &&& self.uuid@.len() == 0
        &&& self.pk@.len() == 0
        &&& self.info.ip@.len() == 0
        &&& self.reg_pk == (0u32, expired)
    }

    /// A peer that nothing is known of; `expired` is a time that counts as long ago.
    pub fn blank(expired: u64) -> (peer: Peer)
        ensures
            peer.is_blank(expired),
    {
        Peer {
            socket_addr: SocketAddr::V4([0, 0, 0, 0], 0),
            socket_addr_v6: SocketAddr::V6([0, 0, 0, 0, 0, 0, 0, 0], 0, 0, 0),
            last_reg_time: expired,
            guid: Vec::new(),
            uuid: Vec::new(),
            pk: Vec::new(),
            info: PeerInfo::default(),
            reg_pk: (0, expired),
        }
    }

    /// Whether the peer is what a row and its text say, and blank but for that.
    pub open spec fn is_loaded(self, row: database::Peer, info: PeerInfo, expired: u64) -> bool {
        exists|blank: Peer| #[trigger]
            blank.is_blank(expired) && self == (Peer {
                guid: row.guid,
                uuid: row.uuid,
                pk: row.pk,
                info,
                ..blank
            })
    }

    /// A peer as it was stored: its row, and what was read of the row's text.
    pub fn from_row(row: database::Peer, info: PeerInfo, expired: u64) -> (peer: Peer)
        ensures
            peer.is_loaded(row, info, expired),
    {
        let mut peer = Peer::blank(expired);
        let ghost blank = peer;
        peer.guid = row.guid;
        peer.uuid = row.uuid;
        peer.pk = row.pk;
        peer.info = info;
        assert(blank.is_blank(expired));
        peer
    }

    /// Takes over the registration of a key. Tells what is to be written to the database.
    pub fn update_pk(
        &mut self,
        addr: SocketAddr,
        uuid: Vec<u8>,
        pk: Vec<u8>,
        ip: String,
        now: u64,
    ) -> (write: PkWrite)
        ensures
            *final(self) == after_update_pk(*old(self), addr, uuid, pk, ip, now),
            match write {
                PkWrite::Insert => write_of(*old(self)) is None,
                PkWrite::Update(guid) => write_of(*old(self)) == Some(guid@),
            },
    {
        self.socket_addr = addr;
        self.uuid = uuid;
        self.pk = pk;
        self.last_reg_time = now;
        self.info.ip = ip;
        if self.guid.len() == 0 {
            PkWrite::Insert
        } else {
            let guid = self.guid.clone();
            assert(guid@ == self.guid@);
            PkWrite::Update(guid)
        }
    }

    /// Ends the registration of a key with a new row: `stored` is the identifier of the row,
    /// nothing where the database failed.
    pub fn finish_insert(&mut self, stored: Option<Vec<u8>>) -> (answer: RegisterPkResult)
        ensures
            match stored {
                Some(guid) => *final(self) == after_insert(*old(self), guid) && answer
                    == RegisterPkResult::Registered,
                None => *final(self) == *old(self) && answer == RegisterPkResult::ServerError,
            },
    {
        match stored {
            Some(guid) => {
                self.guid = guid;
                RegisterPkResult::Registered
            },
            None => RegisterPkResult::ServerError,
        }
    }
}

/// Ends the registration of a key with a row that was there: `stored` is false where the
/// database failed.
pub fn finish_update(stored: bool) -> (answer: RegisterPkResult)
    ensures
        answer == (if stored {
            RegisterPkResult::Registered
        } else {
            RegisterPkResult::ServerError
        }),
{
    if stored {
        RegisterPkResult::Registered
    } else {
        RegisterPkResult::ServerError
    }
}

/// Where the database is without a setting.
pub enum DbHome {
    /// In the working directory, which is written out.
    Written,
    /// In the working directory, which is not written out.
    Plain,
    /// In a directory of Windows.
    Folder(String),
}

impl DbHome {
    /// The place of the database.
    pub open spec fn place(self) -> Seq<char> {
        match self {
            DbHome::Written => "./db_v2.sqlite3"@,
            DbHome::Plain => "db_v2.sqlite3"@,
            DbHome::Folder(path) => path@ + "\\db_v2.sqlite3"@,
        }
    }
}

/// The database, by the setting `DB_URL`, and without one in its usual place.
pub fn db_url(setting: Option<&str>, home: &DbHome) -> (url: String)
    ensures
        url@ == (match setting {
            Some(url) => url@,
            None => home.place(),
        }),
{
    match setting {
        Some(url) => url.to_owned(),
        None => match home {
            DbHome::Written => "./db_v2.sqlite3".to_owned(),
            DbHome::Plain => "db_v2.sqlite3".to_owned(),
            DbHome::Folder(path) => {
                let mut url = path.clone();
                url.append("\\db_v2.sqlite3");
                url
            },
        },
    }
}

/// Whether a peer stays in memory, by when it last registered; nothing is seen of a peer that
/// is in use, and it stays.
pub open spec fn stays(seen: Option<u64>, now: u64) -> bool {
    match seen {
        Some(last_reg_time) => now < last_reg_time || (now - last_reg_time) / 1_000_000_000
            < EVICT_AFTER_SECS,
        None => true,
    }
}

fn keeps(seen: Option<u64>, now: u64) -> (yes: bool)
    ensures
        yes == stays(seen, now),
{
    match seen {
        Some(last_reg_time) => now < last_reg_time || (now - last_reg_time) / 1_000_000_000
            < EVICT_AFTER_SECS,
        None => true,
    }
}

/// The peers in memory, by their names.
#[verifier::reject_recursive_types(P)]
pub struct PeerMap<P> {
    entries: Vec<(String, P)>,
    index: StringHashMap<usize>,
}

impl<P> View for PeerMap<P> {
    type V = Map<Seq<char>, P>;

    closed spec fn view(&self) -> Map<Seq<char>, P> {
        self.index@.map_values(|i: usize| self.entries@[i as int].1)
    }
}

impl<P> PeerMap<P> {
    /// The index leads to each entry by its name, and nowhere else.
    pub closed spec fn wf(self) -> bool {
        &&& forall|k: Seq<char>| #[trigger]
            self.index@.contains_key(k) ==> self.index@[k] < self.entries@.len()
                && self.entries@[self.index@[k] as int].0@ == k
        &&& forall|i: int|
            0 <= i < self.entries@.len() ==> self.index@.contains_key(
                (#[trigger] self.entries@[i]).0@,
            ) && self.index@[self.entries@[i].0@] == i
    }

    proof fn lemma_finite(self)
        requires
            self.wf(),
        ensures
            self@.dom() == self.index@.dom(),
            self@.dom().finite(),
    {
        let names = self.entries@.map_values(|e: (String, P)| e.0@);
        assert(self@.dom() =~= self.index@.dom());
        assert(self.index@.dom() =~= names.to_set()) by {
            assert forall|k: Seq<char>| self.index@.dom().contains(k) == names.contains(k) by {
                if self.index@.contains_key(k) {
                    assert(names[self.index@[k] as int] == k);
                }
                if names.contains(k) {
                    let i = choose|i: int| 0 <= i < names.len() && names[i] == k;
                    assert(self.entries@[i].0@ == k);
                }
            }
        }
        vstd::seq_lib::seq_to_set_is_finite(names);
    }

    /// No peer in memory.
    pub fn new() -> (map: PeerMap<P>)
        ensures
            map.wf(),
            map@ == Map::<Seq<char>, P>::empty(),
    {
        let map = PeerMap { entries: Vec::new(), index: StringHashMap::new() };
        assert(map@ == Map::<Seq<char>, P>::empty());
        map
    }

    /// The peer of a name, if it is in memory.
    pub fn get_in_memory(&self, id: &str) -> (out: Option<&P>)
        requires
            self.wf(),
        ensures
            match out {
                Some(p) => self@.contains_key(id@) && *p == self@[id@],
                None => !self@.contains_key(id@),
            },
    {
        match self.index.get(id) {
            Some(i) => Some(&self.entries[*i].1),
            None => None,
        }
    }

    /// Whether the peer of a name is in memory.
    pub fn is_in_memory(&self, id: &str) -> (yes: bool)
        requires
            self.wf(),
        ensures
            yes == self@.contains_key(id@),
    {
        self.index.contains_key(id)
    }

    fn push(&mut self, id: String, peer: P)
        requires
            old(self).wf(),
            !old(self)@.contains_key(id@),
        ensures
            final(self).wf(),
            final(self)@ == old(self)@.insert(id@, peer),
    {
        let i: usize = self.entries.len();
        self.index.insert(id.clone(), i);
        self.entries.push((id, peer));
        assert(self@ == old(self)@.insert(id@, peer));
    }

    /// The peer of a name: the one in memory, and else the one that was read from the database,
    /// which is then in memory. A peer that is in memory is never replaced.
    pub fn get(&mut self, id: &str, stored: Option<P>) -> (out: Option<&P>)
        requires
            old(self).wf(),
        ensures
            final(self).wf(),
            final(self)@ == after_get(old(self)@, id@, stored),
            match out {
                Some(p) => final(self)@.contains_key(id@) && *p == final(self)@[id@],
                None => !final(self)@.contains_key(id@),
            },
    {
        if !self.index.contains_key(id) {
            if let Some(peer) = stored {
                self.push(id.to_owned(), peer);
            }
        }
        self.get_in_memory(id)
    }

    /// The peer of a name: the one in memory, and else the one that was read from the database,
    /// and else a fresh one. It is then in memory.
    pub fn get_or(&mut self, id: &str, stored: Option<P>, fresh: P) -> (out: &P)
        requires
            old(self).wf(),
        ensures
            final(self).wf(),
            final(self)@ == after_get_or(old(self)@, id@, stored, fresh),
            final(self)@.contains_key(id@),
            *out == final(self)@[id@],
    {
        let peer = match stored {
            Some(peer) => peer,
            None => fresh,
        };
        if !self.index.contains_key(id) {
            self.push(id.to_owned(), peer);
        }
        assert(self@.contains_key(id@));
        let i: usize = match self.index.get(id) {
            Some(i) => *i,
            None => 0,
        };
        &self.entries[i].1
    }

    /// Takes the peers out of memory that did not register for long. `observe` sees when a peer
    /// last registered, and nothing of a peer that is in use. Gives the number of peers that went.
    pub fn cleanup_memory<F: Fn(&P) -> Option<u64>>(&mut self, now: u64, observe: F) -> (evicted:
        usize)
        requires
            old(self).wf(),
            forall|p: &P| #[trigger] observe.requires((p,)),
        ensures
            final(self).wf(),
            exists|seen: Map<Seq<char>, Option<u64>>| #[trigger]
                swept(old(self)@, observe, now, seen, final(self)@),
            evicted == old(self)@.len() - final(self)@.len(),
    {
        let before: usize = self.index.len();
        let mut rest: Vec<(String, P)> = Vec::new();
        std::mem::swap(&mut rest, &mut self.entries);
        self.index = StringHashMap::new();
        let ghost all = rest@;
        let ghost had = old(self)@;
        let ghost mut seen: Map<Seq<char>, Option<u64>> = Map::empty();
        assert(self@ == Map::<Seq<char>, P>::empty());
        while rest.len() > 0
            invariant
                self.wf(),
                old(self).wf(),
                had == old(self)@,
                all == old(self).entries@,
                rest@ == all.take(rest@.len() as int),
                rest@.len() <= all.len(),
                forall|p: &P| #[trigger] observe.requires((p,)),
                forall|k: Seq<char>| #[trigger]
                    seen.contains_key(k) == (had.contains_key(k) && old(self).index@[k]
                        >= rest@.len()),
                forall|k: Seq<char>| #[trigger]
                    seen.contains_key(k) ==> observe.ensures((&had[k],), seen[k]),
                forall|k: Seq<char>| #[trigger]
                    self@.contains_key(k) == (seen.contains_key(k) && stays(seen[k], now)),
                forall|k: Seq<char>| #[trigger] self@.contains_key(k) ==> self@[k] == had[k],
            decreases rest.len(),
        {
            let ghost n = rest@.len() - 1;
            let ghost kept = self@;
            let ghost seen_before = seen;
            if let Some((id, peer)) = rest.pop() {
                assert(all[n] == (id, peer));
                assert(had.contains_key(id@) && had[id@] == peer);
                let last = observe(&peer);
                proof {
                    seen = seen.insert(id@, last);
                    assert(rest@ == all.take(n));
                    assert forall|k: Seq<char>| #[trigger]
                        seen.contains_key(k) == (had.contains_key(k) && old(self).index@[k]
                            >= n) by {
                        if had.contains_key(k) && old(self).index@[k] == n {
                            assert(all[n].0@ == k);
                        }
                    }
                }
                if keeps(last, now) {
                    self.push(id, peer);
                }
            }
        }
        let after: usize = self.index.len();
        proof {
            assert(seen.dom() =~= had.dom()) by {
                assert forall|k: Seq<char>| seen.dom().contains(k) == had.dom().contains(k) by {
                    assert(seen.contains_key(k) == had.contains_key(k));
                }
            }
            assert forall|k: Seq<char>| #[trigger] had.contains_key(k) implies observe.ensures(
                (&had[k],),
                seen[k],
            ) by {
                assert(seen.contains_key(k));
            }
            assert(swept(had, observe, now, seen, self@));
            self.lemma_finite();
            old(self).lemma_finite();
            assert(self@.dom().subset_of(had.dom())) by {
                assert forall|k: Seq<char>| self@.dom().contains(k) implies had.dom().contains(
                    k,
                ) by {
                    assert(self@.contains_key(k));
                }
            }
            vstd::set_lib::lemma_len_subset(self@.dom(), had.dom());
        }
        before - after
    }
}

/// The peers in memory after one was asked for.
pub open spec fn after_get<P>(map: Map<Seq<char>, P>, id: Seq<char>, stored: Option<P>) -> Map<
    Seq<char>,
    P,
> {
    match stored {
        Some(peer) => if map.contains_key(id) {
            map
        } else {
            map.insert(id, peer)
        },
        None => map,
    }
}

/// The peers in memory after one was asked for that is made if need be.
pub open spec fn after_get_or<P>(
    map: Map<Seq<char>, P>,
    id: Seq<char>,
    stored: Option<P>,
    fresh: P,
) -> Map<Seq<char>, P> {
    match stored {
        Some(peer) => after_get(map, id, Some(peer)),
        None => after_get(map, id, Some(fresh)),
    }
}

/// `after` is what is left of the peers `map` at `now`: `seen` is what was seen of each of them,
/// and by that it stays or goes.
pub open spec fn swept<P, F: Fn(&P) -> Option<u64>>(
    map: Map<Seq<char>, P>,
    observe: F,
    now: u64,
    seen: Map<Seq<char>, Option<u64>>,
    after: Map<Seq<char>, P>,
) -> bool {
    &&& seen.dom() == map.dom()
    &&& forall|k: Seq<char>| #[trigger] map.contains_key(k) ==> observe.ensures((&map[k],), seen[k])
    &&& forall|k: Seq<char>| #[trigger]
        after.contains_key(k) == (map.contains_key(k) && stays(seen[k], now))
    &&& forall|k: Seq<char>| #[trigger] after.contains_key(k) ==> after[k] == map[k]
}

/// Once a peer's row was inserted, each later registration of a key is written to that row.
pub proof fn lemma_registers_once(
    peer: Peer,
    addr: SocketAddr,
    uuid: Vec<u8>,
    pk: Vec<u8>,
    ip: String,
    now: u64,
    guid: Vec<u8>,
)
    requires
        guid@.len() > 0,
    ensures
        write_of(after_insert(peer, guid)) == Some(guid@),
        write_of(after_update_pk(after_insert(peer, guid), addr, uuid, pk, ip, now)) == Some(guid@),
{
}

/// A registration changes nothing of the row that a peer is written to.
pub proof fn lemma_update_keeps_row(
    peer: Peer,
    addr: SocketAddr,
    uuid: Vec<u8>,
    pk: Vec<u8>,
    ip: String,
    now: u64,
)
    ensures
        write_of(after_update_pk(peer, addr, uuid, pk, ip, now)) == write_of(peer),
{
}

/// The registration of a key.
pub struct Registration {
    pub addr: SocketAddr,
    pub uuid: Vec<u8>,
    pub pk: Vec<u8>,
    pub ip: String,
    pub now: u64,
}

impl Registration {
    /// A peer after the registration.
    pub open spec fn peer(self, peer: Peer) -> Peer {
        after_update_pk(peer, self.addr, self.uuid, self.pk, self.ip, self.now)
    }

    /// The table after the registration of a peer under a name was written to it; `info` is the
    /// text for its address, and `guid` the identifier of a new row, should it take one.
    pub open spec fn table(
        self,
        table: Map<Seq<char>, Row>,
        peer: Peer,
        id: Seq<char>,
        guid: Seq<u8>,
        info: Seq<char>,
    ) -> Map<Seq<char>, Row> {
        match write_of(peer) {
            None => table_after_insert(table, id, new_row(guid, self.uuid@, self.pk@, info)),
            Some(known) => table_after_update(table, known, id, self.pk@, info),
        }
    }
}

/// Whether `stored` is what the insertion of a row hands on, with the table as it was before.
pub open spec fn is_stored(
    table: Map<Seq<char>, Row>,
    id: Seq<char>,
    row: Row,
    stored: Seq<u8>,
) -> bool {
    exists|step: InsertStep| #[trigger]
        is_insert_step(row.guid, rows_inserted(table, id, row.guid), step) && stored == handed_on(
            step,
            table_after_insert(table, id, row)[id].guid,
        )
}

/// The first registration of a new peer adds one row, with what was registered; the peer then has
/// the identifier of that row.
pub proof fn lemma_first_registration(
    table: Map<Seq<char>, Row>,
    id: Seq<char>,
    peer: Peer,
    first: Registration,
    guid: Seq<u8>,
    stored: Vec<u8>,
    info: Seq<char>,
)
    requires
        peer.guid@.len() == 0,
        is_free(table, id, guid),
        is_stored(table, id, new_row(guid, first.uuid@, first.pk@, info), stored@),
    ensures
        first.table(table, peer, id, guid, info) == table.insert(
            id,
            new_row(guid, first.uuid@, first.pk@, info),
        ),
        after_insert(first.peer(peer), stored).guid@ == guid,
{
}

/// Two registrations of a new peer add one row: it has the identifier and the uuid of the first,
/// and the key and the text of the second. The peer keeps the identifier, and all other rows
/// stay as they are.
pub proof fn lemma_two_registrations(
    table: Map<Seq<char>, Row>,
    id: Seq<char>,
    peer: Peer,
    first: Registration,
    guid: Seq<u8>,
    stored: Vec<u8>,
    first_info: Seq<char>,
    second: Registration,
    unused: Seq<u8>,
    second_info: Seq<char>,
)
    requires
        peer.guid@.len() == 0,
        guid.len() > 0,
        is_free(table, id, guid),
        is_stored(table, id, new_row(guid, first.uuid@, first.pk@, first_info), stored@),
    ensures
        ({
            let table1 = first.table(table, peer, id, guid, first_info);
            let peer1 = after_insert(first.peer(peer), stored);
            let table2 = second.table(table1, peer1, id, unused, second_info);
            &&& table2 == table.insert(id, new_row(guid, first.uuid@, second.pk@, second_info))
            &&& second.peer(peer1).guid@ == guid
        }),
{
    lemma_first_registration(table, id, peer, first, guid, stored, first_info);
    let table1 = first.table(table, peer, id, guid, first_info);
    assert(table1.contains_key(id) && table1[id].guid == guid);
    let had = choose|had: Seq<char>| #[trigger]
        table1.contains_key(had) && table1[had].guid == guid;
    assert(had == id) by {
        if had != id {
            assert(table.contains_key(had));
        }
    }
    assert(table1.remove(id).insert(
        id,
        new_row(guid, first.uuid@, second.pk@, second_info),
    ) =~= table.insert(id, new_row(guid, first.uuid@, second.pk@, second_info)));
}

/// A peer that registered and then went out of memory is reloaded with what it registered: its
/// identifier, uuid, key and address as text. `row` is what is read of the table under its name,
/// and `loaded` what is made of that; the text of the row is read as the address that it was
/// written for. Only the socket addresses and the times are lost.
pub proof fn lemma_registered_peer_is_reloaded<F: Fn(&Peer) -> Option<u64>>(
    table: Map<Seq<char>, Row>,
    id: Seq<char>,
    peer: Peer,
    r: Registration,
    guid: Seq<u8>,
    stored: Vec<u8>,
    write: spec_fn(Seq<char>) -> Seq<char>,
    read: spec_fn(Seq<char>) -> Seq<char>,
    memory: Map<Seq<char>, Peer>,
    observe: F,
    now: u64,
    seen: Map<Seq<char>, Option<u64>>,
    after: Map<Seq<char>, Peer>,
    row: database::Peer,
    info: PeerInfo,
    expired: u64,
    loaded: Peer,
)
    requires
        peer.guid@.len() == 0,
        is_free(table, id, guid),
        is_stored(table, id, new_row(guid, r.uuid@, r.pk@, write(r.ip@)), stored@),
        memory.contains_key(id),
        swept(memory, observe, now, seen, after),
        !stays(seen[id], now),
        row.entry() == (id, r.table(table, peer, id, guid, write(r.ip@))[id]),
        read(write(r.ip@)) == r.ip@,
        info.ip@ == read(row.info@),
        loaded.is_loaded(row, info, expired),
    ensures
        ({
            let again = after_get(after, id, Some(loaded));
            &&& !after.contains_key(id)
            &&& again.contains_key(id)
            &&& again[id] == loaded
            &&& loaded.guid@ == after_insert(r.peer(peer), stored).guid@
            &&& loaded.uuid@ == r.uuid@
            &&& loaded.pk@ == r.pk@
            &&& loaded.info.ip@ == r.ip@
            &&& loaded.last_reg_time == expired
            &&& loaded.socket_addr matches SocketAddr::V4(ip, port) && ip@ == seq![0u8, 0, 0, 0]
                && port == 0
        }),
{
    lemma_first_registration(table, id, peer, r, guid, stored, write(r.ip@));
}

/// The same holds of a peer that had a row already: it is reloaded with the identifier and the uuid
/// of that row, and the key and the address that it registered last.
pub proof fn lemma_updated_peer_is_reloaded<F: Fn(&Peer) -> Option<u64>>(
    table: Map<Seq<char>, Row>,
    id: Seq<char>,
    peer: Peer,
    r: Registration,
    unused: Seq<u8>,
    write: spec_fn(Seq<char>) -> Seq<char>,
    read: spec_fn(Seq<char>) -> Seq<char>,
    memory: Map<Seq<char>, Peer>,
    observe: F,
    now: u64,
    seen: Map<Seq<char>, Option<u64>>,
    after: Map<Seq<char>, Peer>,
    row: database::Peer,
    info: PeerInfo,
    expired: u64,
    loaded: Peer,
)
    requires
        peer.guid@.len() > 0,
        table.contains_key(id),
        table[id].guid == peer.guid@,
        forall|k: Seq<char>| #[trigger]
            table.contains_key(k) && table[k].guid == peer.guid@ ==> k == id,
        memory.contains_key(id),
        swept(memory, observe, now, seen, after),
        !stays(seen[id], now),
        row.entry() == (id, r.table(table, peer, id, unused, write(r.ip@))[id]),
        read(write(r.ip@)) == r.ip@,
        info.ip@ == read(row.info@),
        loaded.is_loaded(row, info, expired),
    ensures
        ({
            let again = after_get(after, id, Some(loaded));
            &&& !after.contains_key(id)
            &&& again.contains_key(id)
            &&& again[id] == loaded
            &&& loaded.guid@ == r.peer(peer).guid@
            &&& loaded.uuid@ == table[id].uuid
            &&& loaded.pk@ == r.pk@
            &&& loaded.info.ip@ == r.ip@
            &&& loaded.last_reg_time == expired
            &&& loaded.socket_addr matches SocketAddr::V4(ip, port) && ip@ == seq![0u8, 0, 0, 0]
                && port == 0
        }),
{
    assert(has_guid(table, peer.guid@));
}

/// A peer in memory is never replaced by one from the database: whoever asks after the first gets
/// what the first got, and the other peers stay as they are.
pub proof fn lemma_first_load_wins<P>(map: Map<Seq<char>, P>, id: Seq<char>, first: P, other: P)
    requires
        !map.contains_key(id),
    ensures
        after_get(map, id, Some(first))[id] == first,
        after_get(after_get(map, id, Some(first)), id, Some(other)) == after_get(
            map,
            id,
            Some(first),
        ),
        after_get_or(after_get(map, id, Some(first)), id, Some(other), other) == after_get(
            map,
            id,
            Some(first),
        ),
        forall|k: Seq<char>|
            k != id ==> (after_get(map, id, Some(first)).contains_key(k) == map.contains_key(k)),
{
}

/// A peer that registered less than ten minutes ago stays in memory, and so does one that is in
/// use.
pub proof fn lemma_active_peers_stay<P, F: Fn(&P) -> Option<u64>>(
    map: Map<Seq<char>, P>,
    observe: F,
    now: u64,
    seen: Map<Seq<char>, Option<u64>>,
    after: Map<Seq<char>, P>,
    id: Seq<char>,
)
    requires
        swept(map, observe, now, seen, after),
        map.contains_key(id),
        seen[id] is None || now - seen[id]->0 < 600_000_000_000,
    ensures
        after.contains_key(id),
        after[id] == map[id],
{
    assert(after.contains_key(id));
}

/// A peer that went out of memory comes back from the database when it is next asked for.
pub proof fn lemma_evicted_peer_is_reloaded<P, F: Fn(&P) -> Option<u64>>(
    map: Map<Seq<char>, P>,
    observe: F,
    now: u64,
    seen: Map<Seq<char>, Option<u64>>,
    after: Map<Seq<char>, P>,
    id: Seq<char>,
    stored: P,
)
    requires
        swept(map, observe, now, seen, after),
        map.contains_key(id),
        !stays(seen[id], now),
    ensures
        !after.contains_key(id),
        after_get(after, id, Some(stored))[id] == stored,
{
}

} // verus!
