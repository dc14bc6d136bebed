//! Which connections the server takes, and how it brings the two sides of a relay together.

use crate::relay_server::address::{session_id, session_text};
use crate::relay_server::command::{after_command, CommandView};
use crate::relay_server::session::{account, counts, server_after_tick, RelaySession};
use crate::relay_server::store::{
    accounts_insert, accounts_remove, waiting_insert, waiting_remove, waiting_remove_if,
};
use crate::relay_server::{ListKind, RelayServer, ServerView};
use vstd::prelude::*;

verus! {

/// What is to be done with a connection.
#[derive(Clone, Copy, Debug, PartialEq, Eq, Structural)]
pub enum Admission {
    /// It sends a command.
    Command,
    /// It is not served.
    Blocked,
    /// It asks for a relay.
    Relay,
}

/// A request for a relay.
pub struct RelayRequest {
    /// The key that the request shows.
    pub licence_key: String,
    /// What the two sides of a relay have in common.
    pub uuid: String,
}

/// What comes of a request for a relay.
pub enum PairStep {
    /// The connection is dropped.
    Dropped,
    /// The request has met its other side.
    Paired {
        /// The insertion of the other side.
        peer: u64,
        /// The key of the session's account.
        id: String,
        /// Whether both sides send their data without frames.
        raw: bool,
    },
    /// The request waits for its other side.
    Waiting {
        /// The insertion of the request.
        insert_id: u64,
    },
}

/// What comes of a request for a relay, as mathematics.
pub enum PairStepView {
    Dropped,
    Paired { peer: u64, id: Seq<char>, raw: bool },
    Waiting { insert_id: u64 },
}

impl View for PairStep {
    type V = PairStepView;

    open spec fn view(&self) -> PairStepView {
        match *self {
            PairStep::Dropped => PairStepView::Dropped,
            PairStep::Paired { peer, id, raw } => PairStepView::Paired { peer, id: id@, raw },
            PairStep::Waiting { insert_id } => PairStepView::Waiting { insert_id },
        }
    }
}

/// One side of a relay as it comes in, as mathematics.
pub struct Side {
    /// The key that it shows.
    pub licence_key: Seq<char>,
    /// What it has in common with the other side.
    pub uuid: Seq<char>,
    /// Its address.
    pub ip: Seq<char>,
    /// Its port.
    pub port: u16,
    /// Whether it came over a websocket.
    pub ws: bool,
}

impl Side {
    /// Whether the request is granted: it shows the server's key, if there is one, and names
    /// what it has in common with the other side.
    pub open spec fn granted(self, key: Seq<char>) -> bool {
        (key.len() == 0 || self.licence_key == key) && self.uuid.len() > 0
    }

    /// The key of the account of a session that this side completes.
    pub open spec fn id(self) -> Seq<char> {
        session_text(self.ip, self.port)
    }
}

/// The number after `n`, which is zero after the last one.
pub open spec fn next_id(n: u64) -> u64 {
    if n == u64::MAX {
        0
    } else {
        (n + 1) as u64
    }
}

/// The state after a request for a relay.
pub open spec fn after_pair(v: ServerView, key: Seq<char>, side: Side) -> ServerView {
    if !side.granted(key) {
        v
    } else if v.peers.contains_key(side.uuid) {
        ServerView {
            peers: v.peers.remove(side.uuid),
            usage: v.usage.insert(side.id(), (0, 0, 0, 0)),
            ..v
        }
    } else {
        ServerView {
            peers: v.peers.insert(side.uuid, (v.next_insert_id, side.ws)),
            next_insert_id: next_id(v.next_insert_id),
            ..v
        }
    }
}

/// What comes of a request for a relay in a state.
pub open spec fn pair_step(v: ServerView, key: Seq<char>, side: Side) -> PairStepView {
    if !side.granted(key) {
        PairStepView::Dropped
    } else if v.peers.contains_key(side.uuid) {
        PairStepView::Paired {
            peer: v.peers[side.uuid].0,
            id: side.id(),
            raw: !side.ws && !v.peers[side.uuid].1,
        }
    } else {
        PairStepView::Waiting { insert_id: v.next_insert_id }
    }
}

/// The state after the time of a waiting request is over. Only the entry of that insertion goes:
/// a later one under the same identifier stays.
pub open spec fn after_expire(v: ServerView, uuid: Seq<char>, insert_id: u64) -> ServerView {
    if v.peers.contains_key(uuid) && v.peers[uuid].0 == insert_id {
        ServerView { peers: v.peers.remove(uuid), ..v }
    } else {
        v
    }
}

/// The state after a session has ended.
pub open spec fn after_end(v: ServerView, id: Seq<char>) -> ServerView {
    ServerView { usage: v.usage.remove(id), ..v }
}

/// What is to be done with a connection in a state.
pub open spec fn admission(v: ServerView, ws: bool, loopback: bool, ip: Seq<char>) -> Admission {
    if !ws && loopback {
        Admission::Command
    } else if v.blocklist.contains(ip) {
        Admission::Blocked
    } else {
        Admission::Relay
    }
}

impl RelayServer {
    /// Decides what is to be done with a connection, by whether it came over a websocket and
    /// from the machine itself, and by its address.
    pub fn handle_connection(&self, ws: bool, loopback: bool, ip: &str) -> (what: Admission)
        ensures
            what == admission(self@, ws, loopback, ip@),
    {
        if !ws && loopback {
            return Admission::Command;
        }
        if self.is_listed(ListKind::Blocklist, ip) {
            return Admission::Blocked;
        }
        Admission::Relay
    }

    /// Takes a request for a relay.
    pub fn make_pair(
        &mut self,
        key: &str,
        request: &RelayRequest,
        ip: &str,
        port: u16,
        ws: bool,
    ) -> (step: PairStep)
        ensures
            ({
                let side = Side {
                    licence_key: request.licence_key@,
                    uuid: request.uuid@,
                    ip: ip@,
                    port,
                    ws,
                };
                &&& final(self)@ == after_pair(old(self)@, key@, side)
                &&& step@ == pair_step(old(self)@, key@, side)
            }),
    {
        if !key.is_empty() && !request.licence_key.as_str().eq(key) {
            return PairStep::Dropped;
        }
        if request.uuid.as_str().is_empty() {
            return PairStep::Dropped;
        }
        match waiting_remove(&mut self.peers, request.uuid.as_str()) {
            Some((peer, peer_ws)) => {
                let id = session_id(ip, port);
                accounts_insert(&mut self.usage, id.clone(), (0, 0, 0, 0));
                PairStep::Paired { peer, id, raw: !ws && !peer_ws }
            },
            None => {
                let insert_id: u64 = self.next_insert_id;
                self.next_insert_id = insert_id.wrapping_add(1);
                waiting_insert(&mut self.peers, request.uuid.clone(), (insert_id, ws));
                assert(self@.peers == old(self)@.peers.insert(request.uuid@, (insert_id, ws)));
                PairStep::Waiting { insert_id }
            },
        }
    }

    /// Ends the wait of a request.
    pub fn expire(&mut self, uuid: &str, insert_id: u64)
        ensures
            final(self)@ == after_expire(old(self)@, uuid@, insert_id),
    {
        waiting_remove_if(&mut self.peers, uuid, insert_id);
    }

    /// Closes the account of a session that has ended.
    pub fn end_relay(&mut self, id: &str)
        ensures
            final(self)@ == after_end(old(self)@, id@),
    {
        accounts_remove(&mut self.usage, id);
    }
}

/// Two requests with the same identifier meet: the first waits, the second is paired with it,
/// both send without frames if neither came over a websocket, and nothing is left waiting.
pub proof fn lemma_two_sides_meet(v: ServerView, key: Seq<char>, first: Side, second: Side)
    requires
        first.granted(key),
        second.granted(key),
        first.uuid == second.uuid,
        !v.peers.contains_key(first.uuid),
    ensures
        pair_step(v, key, first) == (PairStepView::Waiting { insert_id: v.next_insert_id }),
        pair_step(after_pair(v, key, first), key, second) == (PairStepView::Paired {
            peer: v.next_insert_id,
            id: second.id(),
            raw: !first.ws && !second.ws,
        }),
        after_pair(after_pair(v, key, first), key, second).peers == v.peers,
{
    assert(v.peers.insert(first.uuid, (v.next_insert_id, first.ws)).remove(first.uuid) == v.peers);
}

/// A request that is not granted changes nothing.
pub proof fn lemma_refused_changes_nothing(v: ServerView, key: Seq<char>, side: Side)
    requires
        key.len() > 0 && side.licence_key != key || side.uuid.len() == 0,
    ensures
        pair_step(v, key, side) == PairStepView::Dropped,
        after_pair(v, key, side) == v,
{
}

/// A request that met nobody is gone after its time, and nothing else is.
pub proof fn lemma_expire_undoes_wait(v: ServerView, key: Seq<char>, side: Side)
    requires
        side.granted(key),
        !v.peers.contains_key(side.uuid),
    ensures
        after_expire(after_pair(v, key, side), side.uuid, v.next_insert_id).peers == v.peers,
{
    assert(v.peers.insert(side.uuid, (v.next_insert_id, side.ws)).remove(side.uuid) == v.peers);
}

/// The end of a wait never takes away the entry of another insertion under the same identifier.
pub proof fn lemma_expire_spares_others(v: ServerView, uuid: Seq<char>, insert_id: u64, other: Seq<
    char,
>)
    requires
        v.peers.contains_key(other),
        other != uuid || v.peers[other].0 != insert_id,
    ensures
        after_expire(v, uuid, insert_id).peers.contains_key(other),
        after_expire(v, uuid, insert_id).peers[other] == v.peers[other],
{
}

/// The late end of a wait that led to a pair spares a new request with the same identifier.
pub proof fn lemma_late_expire_is_harmless(
    v: ServerView,
    key: Seq<char>,
    first: Side,
    second: Side,
    third: Side,
)
    requires
        first.granted(key),
        second.granted(key),
        third.granted(key),
        first.uuid == second.uuid,
        second.uuid == third.uuid,
        !v.peers.contains_key(first.uuid),
    ensures
        ({
            let met = after_pair(after_pair(v, key, first), key, second);
            let again = after_pair(met, key, third);
            &&& again.peers.contains_key(third.uuid)
            &&& after_expire(again, first.uuid, v.next_insert_id) == again
        }),
{
    lemma_two_sides_meet(v, key, first, second);
}

/// Waiting requests are told apart by the numbers of their insertions, all of them given out
/// before the next one.
pub open spec fn told_apart(v: ServerView) -> bool {
    &&& forall|u: Seq<char>| #[trigger]
        v.peers.contains_key(u) ==> v.peers[u].0 < v.next_insert_id
    &&& forall|u: Seq<char>, w: Seq<char>| #[trigger]
        v.peers.contains_key(u) && #[trigger] v.peers.contains_key(w) && u != w ==> v.peers[u].0
            != v.peers[w].0
}

/// Requests, ends of waits and ends of sessions keep waiting requests told apart, until the
/// numbers start again.
pub proof fn lemma_told_apart(
    v: ServerView,
    key: Seq<char>,
    side: Side,
    uuid: Seq<char>,
    insert_id: u64,
    id: Seq<char>,
)
    requires
        told_apart(v),
        v.next_insert_id < u64::MAX,
    ensures
        told_apart(after_pair(v, key, side)),
        told_apart(after_expire(v, uuid, insert_id)),
        told_apart(after_end(v, id)),
{
}

/// A server that has just started has its waiting requests told apart: there are none.
pub proof fn lemma_told_apart_at_start(v: ServerView)
    requires
        v.peers == Map::<Seq<char>, (u64, bool)>::empty(),
    ensures
        told_apart(v),
{
}

/// Commands and the looks at running sessions leave the waiting requests alone, and the number
/// that the next one gets.
pub proof fn lemma_waiting_is_left_alone(v: ServerView, c: CommandView, s: RelaySession, now: u64)
    ensures
        after_command(v, c).peers == v.peers,
        after_command(v, c).next_insert_id == v.next_insert_id,
        server_after_tick(v, s, now).peers == v.peers,
        server_after_tick(v, s, now).next_insert_id == v.next_insert_id,
{
}

/// The account that a pair opens is there for the looks at its session: each interval that is
/// counted is written to it.
pub proof fn lemma_pair_opens_account(
    v: ServerView,
    key: Seq<char>,
    side: Side,
    s: RelaySession,
    now: u64,
)
    requires
        side.granted(key),
        v.peers.contains_key(side.uuid),
        s.id@ == side.id(),
        counts(v, s, now),
    ensures
        server_after_tick(after_pair(v, key, side), s, now).usage[s.id@] == account(s, now),
{
}

/// An account lasts until a session with its key ends, whatever else happens.
pub proof fn lemma_account_lasts(
    v: ServerView,
    id: Seq<char>,
    key: Seq<char>,
    side: Side,
    uuid: Seq<char>,
    insert_id: u64,
    other: Seq<char>,
    c: CommandView,
    s: RelaySession,
    now: u64,
)
    requires
        v.usage.contains_key(id),
        other != id,
    ensures
        after_pair(v, key, side).usage.contains_key(id),
        after_expire(v, uuid, insert_id).usage.contains_key(id),
        after_end(v, other).usage.contains_key(id),
        after_command(v, c).usage.contains_key(id),
        server_after_tick(v, s, now).usage.contains_key(id),
{
}

/// The account that a pair opens is closed by the end of its session: the accounts are then
/// those of before, unless there was one under the same key.
pub proof fn lemma_end_closes_account(v: ServerView, key: Seq<char>, side: Side)
    requires
        side.granted(key),
        v.peers.contains_key(side.uuid),
        !v.usage.contains_key(side.id()),
    ensures
        after_pair(v, key, side).usage.contains_key(side.id()),
        after_end(after_pair(v, key, side), side.id()).usage == v.usage,
{
    assert(v.usage.insert(side.id(), (0, 0, 0, 0)).remove(side.id()) == v.usage);
}

} // verus!
