//! The concurrent sets and maps of the `dashmap` crate that hold the server's tables.
//!
//! The methods of `dashmap` change a table through a shared reference. The functions here take
//! the table by `&mut` where they change it, so that a shared reference never sees a change.

use crate::text::texts;
use dashmap::{DashMap, DashSet};
use vstd::prelude::*;

verus! {

#[verifier::external_type_specification]
#[verifier::external_body]
#[verifier::reject_recursive_types(K)]
#[verifier::reject_recursive_types(S)]
pub struct ExDashSet<K, S>(DashSet<K, S>);

#[verifier::external_type_specification]
#[verifier::external_body]
#[verifier::reject_recursive_types(K)]
#[verifier::reject_recursive_types(V)]
#[verifier::reject_recursive_types(S)]
pub struct ExDashMap<K, V, S>(DashMap<K, V, S>);

/// The members of a set of texts.
pub uninterp spec fn members(set: DashSet<String>) -> Set<Seq<char>>;

/// The entries of the table of waiting requests: the number of the insertion, and whether the
/// request came over a websocket.
pub uninterp spec fn waiting(map: DashMap<String, (u64, bool)>) -> Map<Seq<char>, (u64, bool)>;

/// The entries of the table of usage: elapsed milliseconds, bits in all, the highest speed and
/// the last speed, both in bits per millisecond.
pub uninterp spec fn accounts(map: DashMap<String, (u64, u64, u64, u64)>) -> Map<
    Seq<char>,
    (u64, u64, u64, u64),
>;

/// `DashSet::new` makes an empty set.
#[verifier::external_body]
pub(crate) fn new_set() -> (set: DashSet<String>)
    ensures
        members(set) == Set::<Seq<char>>::empty(),
{
    DashSet::new()
}

/// `DashSet::insert` adds one member.
#[verifier::external_body]
pub(crate) fn set_insert(set: &mut DashSet<String>, member: String)
    ensures
        members(*final(set)) == members(*old(set)).insert(member@),
{
    set.insert(member);
}

/// `DashSet::remove` takes one member out, if it is there.
#[verifier::external_body]
pub(crate) fn set_remove(set: &mut DashSet<String>, member: &str)
    ensures
        members(*final(set)) == members(*old(set)).remove(member@),
{
    set.remove(member);
}

/// `DashSet::clear` takes every member out.
#[verifier::external_body]
pub(crate) fn set_clear(set: &mut DashSet<String>)
    ensures
        members(*final(set)) == Set::<Seq<char>>::empty(),
{
    set.clear();
}

/// `DashSet::contains` tells whether a text is a member.
#[verifier::external_body]
pub(crate) fn set_contains(set: &DashSet<String>, member: &str) -> (yes: bool)
    ensures
        yes == members(*set).contains(member@),
{
    set.contains(member)
}

/// `DashSet::iter` hands out each member once, in an order that nothing fixes.
#[verifier::external_body]
pub(crate) fn set_list(set: &DashSet<String>) -> (out: Vec<String>)
    ensures
        texts(out@).no_duplicates(),
        texts(out@).to_set() == members(*set),
{
    set.iter().map(|member| member.key().clone()).collect()
}

/// `DashMap::new` makes an empty table of waiting requests.
#[verifier::external_body]
pub(crate) fn new_waiting() -> (made: DashMap<String, (u64, bool)>)
    ensures
        (waiting(made) == Map::<Seq<char>, (u64, bool)>::empty()),
{
    DashMap::new()
}

/// `DashMap::insert` puts an entry under a key, in the place of one that is there already.
#[verifier::external_body]
pub(crate) fn waiting_insert(
    map: &mut DashMap<String, (u64, bool)>,
    key: String,
    entry: (u64, bool),
)
    ensures
        waiting(*final(map)) == waiting(*old(map)).insert(key@, entry),
{
    map.insert(key, entry);
}

/// `DashMap::remove` takes the entry under a key out and hands it over.
#[verifier::external_body]
pub(crate) fn waiting_remove(map: &mut DashMap<String, (u64, bool)>, key: &str) -> (out: Option<
    (u64, bool),
>)
    ensures
        waiting(*final(map)) == waiting(*old(map)).remove(key@),
        out == (if waiting(*old(map)).contains_key(key@) {
            Some(waiting(*old(map))[key@])
        } else {
            None
        }),
{
    map.remove(key).map(|found| found.1)
}

/// Whether an entry is that of one insertion.
pub(crate) fn inserted_as(entry: &(u64, bool), insert_id: u64) -> (yes: bool)
    ensures
        yes == (entry.0 == insert_id),
{
    entry.0 == insert_id
}

/// `DashMap::remove_if` takes the entry under a key out if a test holds of it; the test is that
/// it is the entry of one insertion.
#[verifier::external_body]
pub(crate) fn waiting_remove_if(map: &mut DashMap<String, (u64, bool)>, key: &str, insert_id: u64)
    ensures
        waiting(*final(map)) == (if waiting(*old(map)).contains_key(key@) && waiting(
            *old(map),
        )[key@].0 == insert_id {
            waiting(*old(map)).remove(key@)
        } else {
            waiting(*old(map))
        }),
{
    map.remove_if(key, |_key, entry| inserted_as(entry, insert_id));
}

/// `DashMap::new` makes an empty table of usage.
#[verifier::external_body]
pub(crate) fn new_accounts() -> (made: DashMap<String, (u64, u64, u64, u64)>)
    ensures
        (accounts(made) == Map::<Seq<char>, (u64, u64, u64, u64)>::empty()),
{
    DashMap::new()
}

/// `DashMap::insert` puts an account under a key, in the place of one that is there already.
#[verifier::external_body]
pub(crate) fn accounts_insert(
    map: &mut DashMap<String, (u64, u64, u64, u64)>,
    key: String,
    account: (u64, u64, u64, u64),
)
    ensures
        accounts(*final(map)) == accounts(*old(map)).insert(key@, account),
{
    map.insert(key, account);
}

/// `DashMap::remove` takes the account under a key out, if there is one.
#[verifier::external_body]
pub(crate) fn accounts_remove(map: &mut DashMap<String, (u64, u64, u64, u64)>, key: &str)
    ensures
        accounts(*final(map)) == accounts(*old(map)).remove(key@),
{
    map.remove(key);
}

/// `DashMap::get_mut` gives access to the account under a key, if there is one; writing through
/// it replaces that account alone.
#[verifier::external_body]
pub(crate) fn accounts_write(
    map: &mut DashMap<String, (u64, u64, u64, u64)>,
    key: &str,
    account: (u64, u64, u64, u64),
)
    ensures
        accounts(*final(map)) == (if accounts(*old(map)).contains_key(key@) {
            accounts(*old(map)).insert(key@, account)
        } else {
            accounts(*old(map))
        }),
{
    if let Some(mut entry) = map.get_mut(key) {
        *entry = account;
    }
}

/// `DashMap::iter` hands out each entry once, in an order that nothing fixes.
#[verifier::external_body]
pub(crate) fn accounts_list(map: &DashMap<String, (u64, u64, u64, u64)>) -> (out: Vec<
    (String, (u64, u64, u64, u64)),
>)
    ensures
        out@.map_values(|e: (String, (u64, u64, u64, u64))| e.0@).no_duplicates(),
        out@.map_values(|e: (String, (u64, u64, u64, u64))| e.0@).to_set() == accounts(*map).dom(),
        forall|i: int| 0 <= i < out@.len() ==> accounts(*map)[(#[trigger] out@[i]).0@] == out@[i].1,
{
    map.iter().map(|entry| (entry.key().clone(), *entry.value())).collect()
}

} // verus!
