//! Laws of the decisions around the table of peers.

use crate::database::{
    insert_peer, max_connections, new_guid, update_pk, was_drawn, DbPool, InsertStep, Peer,
};
use crate::text::{parse_number, NumberError};
use vstd::prelude::*;

verus! {

/// The setting is the number of connections; without one, or where it is no number, there are four.
pub proof fn lemma_connections(
    text: &str,
    read: Result<u64, NumberError>,
    out: usize,
    out_without: usize,
)
    requires
        call_ensures(parse_number, (text, usize::MAX as u64), read),
        call_ensures(max_connections, (Some(text),), out),
        call_ensures(max_connections, (None::<&str>,), out_without),
    ensures
        read matches Ok(n) ==> out == n,
        read is Err ==> out == 4,
        out_without == 4,
{
}

/// A row that nothing is known of is empty.
pub proof fn lemma_empty_row(row: Peer)
    requires
        call_ensures(Peer::default, (), row),
    ensures
        row.guid@.len() == 0 && row.uuid@.len() == 0 && row.pk@.len() == 0,
        row.id@.len() == 0 && row.info@.len() == 0,
        row.user is None && row.status is None,
{
}

/// An insertion that changed a row hands on its own identifier, and one that did not has the
/// identifier read from the table; an update found its row if it changed one.
pub proof fn lemma_rows_decide(guid: Vec<u8>, rows: u64, step: InsertStep, found: bool)
    requires
        call_ensures(insert_peer, (guid, rows), step),
        call_ensures(update_pk, (rows,), found),
    ensures
        step is ReadGuid <==> rows == 0,
        step matches InsertStep::Inserted(handed_on) ==> handed_on@ == guid@,
        found == (rows > 0),
{
}

/// An identifier is drawn at random and never empty, so a peer that has one has a row.
pub proof fn lemma_identifiers_are_never_empty(guid: Vec<u8>)
    requires
        call_ensures(new_guid, (), guid),
    ensures
        was_drawn(guid),
        guid@.len() == 16,
{
}

/// Connections lead where they were made to lead.
pub proof fn lemma_connections_lead_to_their_place(place: &str, pool: DbPool, url: &str)
    requires
        call_ensures(DbPool::new, (place,), pool),
        call_ensures(DbPool::url, (&pool,), url),
    ensures
        url@ == place@,
{
}

} // verus!
