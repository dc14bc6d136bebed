//! The relay server: which connections it admits, how it pairs the two sides of a relay, and
//! what it keeps about them.

pub mod address;
pub mod command;
pub mod frame;
pub mod key;
pub mod pairing;
pub mod params;
pub mod session;
pub mod store;
pub mod usage;

use crate::relay_server::params::{env_params, initial_params, EnvParams, Params};
use crate::relay_server::store::{
    accounts, members, new_accounts, new_set, new_waiting, set_contains, set_insert, set_remove,
    waiting,
};
use crate::text::{first_fields, split_first_fields, texts};
use dashmap::{DashMap, DashSet};
use vstd::prelude::*;

verus! {

/// The two lists of addresses.
#[derive(Clone, Copy, Debug, PartialEq, Eq, Structural)]
pub enum ListKind {
    /// Addresses whose sessions are slowed down.
    Blacklist,
    /// Addresses that are not served.
    Blocklist,
}

/// What the server keeps between connections.
pub struct RelayServer {
    peers: DashMap<String, (u64, bool)>,
    usage: DashMap<String, (u64, u64, u64, u64)>,
    blacklist: DashSet<String>,
    blocklist: DashSet<String>,
    next_insert_id: u64,
    params: Params,
}

/// The state of a server, as mathematics.
#[verifier::ext_equal]
pub struct ServerView {
    /// The waiting requests: for each identifier the number of its insertion, and whether it
    /// came over a websocket.
    pub peers: Map<Seq<char>, (u64, bool)>,
    /// The accounts of the running sessions.
    pub usage: Map<Seq<char>, (u64, u64, u64, u64)>,
    /// The addresses whose sessions are slowed down.
    pub blacklist: Set<Seq<char>>,
    /// The addresses that are not served.
    pub blocklist: Set<Seq<char>>,
    /// The number that the next insertion gets.
    pub next_insert_id: u64,
    /// The parameters.
    pub params: Params,
}

impl ServerView {
    /// The addresses on one of the two lists.
    pub open spec fn list(self, list: ListKind) -> Set<Seq<char>> {
        match list {
            ListKind::Blacklist => self.blacklist,
            ListKind::Blocklist => self.blocklist,
        }
    }

    /// The state with other addresses on one of the two lists.
    pub open spec fn with_list(self, list: ListKind, ips: Set<Seq<char>>) -> ServerView {
        match list {
            ListKind::Blacklist => ServerView { blacklist: ips, ..self },
            ListKind::Blocklist => ServerView { blocklist: ips, ..self },
        }
    }
}

impl View for RelayServer {
    type V = ServerView;

    closed spec fn view(&self) -> ServerView {
        ServerView {
            peers: waiting(self.peers),
            usage: accounts(self.usage),
            blacklist: members(self.blacklist),
            blocklist: members(self.blocklist),
            next_insert_id: self.next_insert_id,
            params: self.params,
        }
    }
}

proof fn lemma_take_set(s: Seq<Seq<char>>, i: int)
    requires
        0 <= i < s.len(),
    ensures
        s.take(i + 1).to_set() == s.take(i).to_set().insert(s[i]),
{
    let (prefix, next) = (s.take(i), s.take(i + 1));
    assert(next == prefix.push(s[i]));
    assert forall|x: Seq<char>| next.contains(x) == prefix.to_set().insert(s[i]).contains(x) by {
        if prefix.contains(x) {
            let k = choose|k: int| 0 <= k < prefix.len() && prefix[k] == x;
            assert(next[k] == x);
        }
        assert(next[i] == s[i]);
    }
    assert(next.to_set() =~= prefix.to_set().insert(s[i]));
}

impl RelayServer {
    /// A server that has just started: nobody waits, no session runs and the lists are empty.
    pub fn new() -> (server: RelayServer)
        ensures
            server@ == (ServerView {
                peers: Map::empty(),
                usage: Map::empty(),
                blacklist: Set::empty(),
                blocklist: Set::empty(),
                next_insert_id: 0,
                params: initial_params(),
            }),
    {
        RelayServer {
            peers: new_waiting(),
            usage: new_accounts(),
            blacklist: new_set(),
            blocklist: new_set(),
            next_insert_id: 0,
            params: Params::default(),
        }
    }

    /// The parameters.
    pub fn params(&self) -> (params: Params)
        ensures
            params == self@.params,
    {
        self.params
    }

    /// Takes over the parameters that the environment sets.
    pub fn check_params(&mut self, env: &EnvParams)
        requires
            env.start_check_seconds() * 1000 <= u64::MAX,
        ensures
            final(self)@ == (ServerView {
                params: env_params(old(self)@.params, *env),
                ..old(self)@
            }),
    {
        self.params.check_params(env);
    }

    /// Puts the addresses of a file on a list: the first field of each of its lines.
    pub fn load_list(&mut self, list: ListKind, contents: &str)
        ensures
            final(self)@ == old(self)@.with_list(
                list,
                old(self)@.list(list).union(first_fields(contents@).to_set()),
            ),
    {
        let ips = split_first_fields(contents);
        self.add_all(list, &ips);
    }

    pub(crate) fn add_all(&mut self, list: ListKind, ips: &Vec<String>)
        ensures
            final(self)@ == old(self)@.with_list(
                list,
                old(self)@.list(list).union(texts(ips@).to_set()),
            ),
    {
        let ghost all = texts(ips@);
        let ghost had = self@.list(list);
        assert(had.union(all.take(0).to_set()) == had);
        for i in 0..ips.len()
            invariant
                all == texts(ips@),
                self@ == old(self)@.with_list(list, had.union(all.take(i as int).to_set())),
        {
            proof {
                lemma_take_set(all, i as int);
                assert(had.union(all.take(i as int + 1).to_set()) == had.union(
                    all.take(i as int).to_set(),
                ).insert(all[i as int]));
            }
            match list {
                ListKind::Blacklist => set_insert(&mut self.blacklist, ips[i].clone()),
                ListKind::Blocklist => set_insert(&mut self.blocklist, ips[i].clone()),
            }
        }
        assert(all.take(all.len() as int) == all);
    }

    pub(crate) fn remove_all(&mut self, list: ListKind, ips: &Vec<String>)
        ensures
            final(self)@ == old(self)@.with_list(
                list,
                old(self)@.list(list).difference(texts(ips@).to_set()),
            ),
    {
        let ghost all = texts(ips@);
        let ghost had = self@.list(list);
        assert(had.difference(all.take(0).to_set()) == had);
        for i in 0..ips.len()
            invariant
                all == texts(ips@),
                self@ == old(self)@.with_list(list, had.difference(all.take(i as int).to_set())),
        {
            proof {
                lemma_take_set(all, i as int);
                assert(had.difference(all.take(i as int + 1).to_set()) == had.difference(
                    all.take(i as int).to_set(),
                ).remove(all[i as int]));
            }
            match list {
                ListKind::Blacklist => set_remove(&mut self.blacklist, ips[i].as_str()),
                ListKind::Blocklist => set_remove(&mut self.blocklist, ips[i].as_str()),
            }
        }
        assert(all.take(all.len() as int) == all);
    }

    /// Whether an address is on a list.
    pub fn is_listed(&self, list: ListKind, ip: &str) -> (yes: bool)
        ensures
            yes == self@.list(list).contains(ip@),
    {
        match list {
            ListKind::Blacklist => set_contains(&self.blacklist, ip),
            ListKind::Blocklist => set_contains(&self.blocklist, ip),
        }
    }
}

} // verus!
