//! The table of registered peers: what is decided around its statements.

use crate::text::{number, parse_number};
use vstd::prelude::*;

verus! {

/// Where the connections to the database lead.
pub struct DbPool {
    url: String,
}

/// A row of the table of peers.
pub struct Peer {
    pub guid: Vec<u8>,
    pub id: String,
    pub uuid: Vec<u8>,
    pub pk: Vec<u8>,
    pub user: Option<Vec<u8>>,
    pub info: String,
    pub status: Option<i64>,
}

/// The statement that inserts a row, by identifier, name, uuid, key and text. It leaves the table
/// as it is where the name or the identifier is taken.
pub const INSERT_PEER: &'static str =
    "insert or ignore into peer(guid, id, uuid, pk, info) values(?, ?, ?, ?, ?)";

/// The statement that reads the identifier of a row, by name.
pub const SELECT_GUID: &'static str = "select guid from peer where id = ?";

/// The statement that reads a row, by name.
pub const SELECT_PEER: &'static str =
    "select guid, id, uuid, pk, user, status, info from peer where id = ?";

/// The statement that changes a row, to a name, a key and a text, by identifier.
pub const UPDATE_PK: &'static str = "update peer set id=?, pk=?, info=? where guid=?";

/// The statements that make the table, where it is not there. A name is there once, and so is an
/// identifier.
pub const CREATE_TABLES: &'static str = "
            create table if not exists peer (
                guid blob primary key not null,
                id varchar(100) not null,
                uuid blob not null,
                pk blob not null,
                created_at datetime not null default(current_timestamp),
                user blob,
                status tinyint,
                note varchar(300),
                info text not null
            ) without rowid;
            create unique index if not exists index_peer_id on peer (id);
            create index if not exists index_peer_user on peer (user);
            create index if not exists index_peer_created_at on peer (created_at);
            create index if not exists index_peer_status on peer (status);
        ";

/// What follows an insertion.
pub enum InsertStep {
    /// The row is in the table, under this identifier.
    Inserted(Vec<u8>),
    /// Another row has the same name: its identifier is to be read from the table.
    ReadGuid,
}

impl DbPool {
    /// The place that the connections lead to.
    pub closed spec fn view(&self) -> Seq<char> {
        self.url@
    }

    /// Connections to a place.
    pub fn new(url: &str) -> (pool: DbPool)
        ensures
            pool@ == url@,
    {
        DbPool { url: url.to_owned() }
    }

    /// The place.
    pub fn url(&self) -> (url: &str)
        ensures
            url@ == self@,
    {
        self.url.as_str()
    }
}

impl Peer {
    /// The name and the row, as mathematics.
    pub open spec fn entry(self) -> (Seq<char>, Row) {
        (
            self.id@,
            Row {
                guid: self.guid@,
                uuid: self.uuid@,
                pk: self.pk@,
                info: self.info@,
                user: match self.user {
                    Some(user) => Some(user@),
                    None => None,
                },
                status: self.status,
            },
        )
    }
}

impl Default for Peer {
    fn default() -> (row: Self)
        ensures
            row.guid@ == Seq::<u8>::empty(),
            row.id@ == Seq::<char>::empty(),
            row.uuid@ == Seq::<u8>::empty(),
            row.pk@ == Seq::<u8>::empty(),
            row.user is None,
            row.info@ == Seq::<char>::empty(),
            row.status is None,
    {
        Peer {
            guid: Vec::new(),
            id: String::new(),
            uuid: Vec::new(),
            pk: Vec::new(),
            user: None,
            info: String::new(),
            status: None,
        }
    }
}

/// The number of connections that a setting stands for: four without one, or where it is no
/// number.
pub open spec fn connections_of(setting: Option<Seq<char>>) -> nat {
    match setting {
        Some(text) => match number(text, usize::MAX as nat) {
            Ok(n) => n,
            Err(_) => 4,
        },
        None => 4,
    }
}

/// The number of connections to the database, by the setting `MAX_DATABASE_CONNECTIONS`.
pub fn max_connections(setting: Option<&str>) -> (n: usize)
    ensures
        n == connections_of((match setting { Some(text) => Some(text@), None => None })),
{
    match setting {
        Some(text) => match parse_number(text, usize::MAX as u64) {
            Ok(n) => n as usize,
            Err(_) => 4,
        },
        None => 4,
    }
}

/// `uuid::Uuid::new_v4` makes a random identifier of sixteen bytes. Four bits of it say that it
/// is of version 4, and two that it is of the usual variant; nothing is said of the others.
#[verifier::external_body]
fn random_uuid() -> (bytes: Vec<u8>)
    ensures
        bytes@.len() == 16,
        bytes@[6] / 16 == 4,
        bytes@[8] / 64 == 2,
{
    uuid::Uuid::new_v4().as_bytes().to_vec()
}

/// Whether an identifier was drawn at random.
pub closed spec fn was_drawn(guid: Vec<u8>) -> bool {
    call_ensures(random_uuid, (), guid)
}

/// An identifier for a row that is to be inserted.
pub fn new_guid() -> (guid: Vec<u8>)
    ensures
        was_drawn(guid),
        guid@.len() == 16,
        guid@[6] / 16 == 4,
        guid@[8] / 64 == 2,
{
    random_uuid()
}

/// `step` is what follows an insertion, by the number of rows that it changed.
pub open spec fn is_insert_step(guid: Seq<u8>, rows_affected: u64, step: InsertStep) -> bool {
    match step {
        InsertStep::Inserted(g) => rows_affected != 0 && g@ == guid,
        InsertStep::ReadGuid => rows_affected == 0,
    }
}

/// What follows an insertion that leaves the table as it is where the name is taken, by the
/// number of rows that it changed. Only an identifier that is in the table may be handed on:
/// later updates look for it.
pub fn insert_peer(guid: Vec<u8>, rows_affected: u64) -> (step: InsertStep)
    ensures
        is_insert_step(guid@, rows_affected, step),
{
    if rows_affected == 0 {
        InsertStep::ReadGuid
    } else {
        InsertStep::Inserted(guid)
    }
}

/// The identifier that an insertion hands on: `read` is the one that was read from the table, if
/// that was needed.
pub open spec fn handed_on(step: InsertStep, read: Seq<u8>) -> Seq<u8> {
    match step {
        InsertStep::Inserted(guid) => guid@,
        InsertStep::ReadGuid => read,
    }
}

/// A row of the table of peers, as mathematics.
#[verifier::ext_equal]
pub struct Row {
    pub guid: Seq<u8>,
    pub uuid: Seq<u8>,
    pub pk: Seq<u8>,
    pub info: Seq<char>,
    pub user: Option<Seq<u8>>,
    pub status: Option<i64>,
}

/// A row as it is inserted.
pub open spec fn new_row(guid: Seq<u8>, uuid: Seq<u8>, pk: Seq<u8>, info: Seq<char>) -> Row {
    Row { guid, uuid, pk, info, user: None, status: None }
}

/// Whether an identifier is in the table.
pub open spec fn has_guid(table: Map<Seq<char>, Row>, guid: Seq<u8>) -> bool {
    exists|id: Seq<char>| #[trigger] table.contains_key(id) && table[id].guid == guid
}

/// Whether `INSERT_PEER` can put a row under a name: neither the name nor the identifier is taken.
pub open spec fn is_free(table: Map<Seq<char>, Row>, id: Seq<char>, guid: Seq<u8>) -> bool {
    !table.contains_key(id) && !has_guid(table, guid)
}

/// The table after `INSERT_PEER`.
pub open spec fn table_after_insert(table: Map<Seq<char>, Row>, id: Seq<char>, row: Row) -> Map<
    Seq<char>,
    Row,
> {
    if is_free(table, id, row.guid) {
        table.insert(id, row)
    } else {
        table
    }
}

/// The number of rows that `INSERT_PEER` changes.
pub open spec fn rows_inserted(table: Map<Seq<char>, Row>, id: Seq<char>, guid: Seq<u8>) -> u64 {
    if is_free(table, id, guid) {
        1
    } else {
        0
    }
}

/// Whether another row than that of an identifier has a name.
pub open spec fn is_taken(table: Map<Seq<char>, Row>, guid: Seq<u8>, id: Seq<char>) -> bool {
    table.contains_key(id) && table[id].guid != guid
}

/// The number of rows that `UPDATE_PK` changes; none where it fails, since the name is taken.
pub open spec fn rows_updated(
    table: Map<Seq<char>, Row>,
    guid: Seq<u8>,
    id: Seq<char>,
) -> Option<u64> {
    if !has_guid(table, guid) {
        Some(0)
    } else if is_taken(table, guid, id) {
        None
    } else {
        Some(1)
    }
}

/// The table after `UPDATE_PK`: the row of the identifier has the name, the key and the text, and
/// else nothing has changed.
pub open spec fn table_after_update(
    table: Map<Seq<char>, Row>,
    guid: Seq<u8>,
    id: Seq<char>,
    pk: Seq<u8>,
    info: Seq<char>,
) -> Map<Seq<char>, Row> {
    if rows_updated(table, guid, id) == Some(1u64) {
        let had = choose|had: Seq<char>| #[trigger]
            table.contains_key(had) && table[had].guid == guid;
        table.remove(had).insert(id, Row { pk, info, ..table[had] })
    } else {
        table
    }
}

/// The table after several insertions under one name.
pub open spec fn table_after_inserts(
    table: Map<Seq<char>, Row>,
    id: Seq<char>,
    rows: Seq<Row>,
) -> Map<Seq<char>, Row>
    decreases rows.len(),
{
    if rows.len() == 0 {
        table
    } else {
        table_after_insert(table_after_inserts(table, id, rows.drop_last()), id, rows.last())
    }
}

/// What an insertion hands on is the identifier that is in the table under the name, be it its own
/// or that of a row that was there. A row that was there stays as it is, and so do all others.
pub proof fn lemma_insertion_hands_on_the_stored_guid(
    table: Map<Seq<char>, Row>,
    id: Seq<char>,
    row: Row,
    step: InsertStep,
)
    requires
        table.contains_key(id) || !has_guid(table, row.guid),
        is_insert_step(row.guid, rows_inserted(table, id, row.guid), step),
    ensures
        ({
            let after = table_after_insert(table, id, row);
            &&& after.contains_key(id)
            &&& handed_on(step, after[id].guid) == after[id].guid
            &&& table.contains_key(id) ==> after == table
            &&& !table.contains_key(id) ==> after == table.insert(id, row)
        }),
{
}

/// Of all insertions under one name the first one's row stays: whatever comes after it leaves
/// the table as it is, and hands on the first one's identifier.
pub proof fn lemma_first_insertion_stays(
    table: Map<Seq<char>, Row>,
    id: Seq<char>,
    first: Row,
    later: Seq<Row>,
    last: Row,
    step: InsertStep,
)
    requires
        is_free(table, id, first.guid),
        is_insert_step(
            last.guid,
            rows_inserted(
                table_after_inserts(table_after_insert(table, id, first), id, later),
                id,
                last.guid,
            ),
            step,
        ),
    ensures
        ({
            let then = table_after_inserts(table_after_insert(table, id, first), id, later);
            &&& then == table.insert(id, first)
            &&& table_after_insert(then, id, last) == then
            &&& handed_on(step, then[id].guid) == first.guid
        }),
{
    lemma_known_name_stays(table_after_insert(table, id, first), id, later);
}

proof fn lemma_known_name_stays(table: Map<Seq<char>, Row>, id: Seq<char>, rows: Seq<Row>)
    requires
        table.contains_key(id),
    ensures
        table_after_inserts(table, id, rows) == table,
    decreases rows.len(),
{
    if rows.len() > 0 {
        lemma_known_name_stays(table, id, rows.drop_last());
    }
}

/// An update to a name that another row has fails and changes nothing.
pub proof fn lemma_taken_name_is_refused(
    table: Map<Seq<char>, Row>,
    guid: Seq<u8>,
    id: Seq<char>,
    pk: Seq<u8>,
    info: Seq<char>,
)
    requires
        has_guid(table, guid),
        is_taken(table, guid, id),
    ensures
        rows_updated(table, guid, id) is None,
        table_after_update(table, guid, id, pk, info) == table,
{
}

/// An update by an identifier that is not in the table finds no row and changes nothing.
pub proof fn lemma_stale_guid_changes_nothing(
    table: Map<Seq<char>, Row>,
    guid: Seq<u8>,
    id: Seq<char>,
    pk: Seq<u8>,
    info: Seq<char>,
)
    requires
        !has_guid(table, guid),
    ensures
        rows_updated(table, guid, id) == Some(0u64),
        table_after_update(table, guid, id, pk, info) == table,
{
}

/// Whether an update found its row, by the number of rows that it changed.
pub fn update_pk(rows_affected: u64) -> (found: bool)
    ensures
        found == (rows_affected != 0),
{
    rows_affected != 0
}

} // verus!
