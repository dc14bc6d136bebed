use hbbs::database::{
    insert_peer, new_guid, update_pk, InsertStep, Peer, CREATE_TABLES, INSERT_PEER, SELECT_GUID,
    SELECT_PEER, UPDATE_PK,
};
use hbbs::peer::{self, PeerInfo, PeerMap, PkWrite, RegisterPkResult, SocketAddr};
use sqlx::{Connection, Row, SqliteConnection};

async fn table() -> SqliteConnection {
    let mut conn = SqliteConnection::connect("sqlite::memory:").await.unwrap();
    sqlx::query(CREATE_TABLES).execute(&mut conn).await.unwrap();
    conn
}

async fn insert(
    conn: &mut SqliteConnection,
    id: &str,
    uuid: &[u8],
    pk: &[u8],
    info: &str,
) -> Vec<u8> {
    let guid = new_guid();
    let result = sqlx::query(INSERT_PEER)
        .bind(&guid)
        .bind(id)
        .bind(uuid)
        .bind(pk)
        .bind(info)
        .execute(&mut *conn)
        .await
        .unwrap();
    match insert_peer(guid, result.rows_affected()) {
        InsertStep::Inserted(guid) => guid,
        InsertStep::ReadGuid => sqlx::query(SELECT_GUID)
            .bind(id)
            .fetch_one(&mut *conn)
            .await
            .unwrap()
            .get("guid"),
    }
}

async fn update(conn: &mut SqliteConnection, guid: &[u8], id: &str, pk: &[u8], info: &str) -> bool {
    let result = sqlx::query(UPDATE_PK)
        .bind(id)
        .bind(pk)
        .bind(info)
        .bind(guid)
        .execute(&mut *conn)
        .await
        .unwrap();
    update_pk(result.rows_affected())
}

async fn read(conn: &mut SqliteConnection, id: &str) -> Option<Peer> {
    let row = sqlx::query(SELECT_PEER).bind(id).fetch_optional(&mut *conn).await.unwrap();
    row.map(|row| Peer {
        guid: row.get("guid"),
        id: row.get("id"),
        uuid: row.get("uuid"),
        pk: row.get("pk"),
        user: row.get("user"),
        info: row.get("info"),
        status: row.get("status"),
    })
}

async fn rows(conn: &mut SqliteConnection) -> usize {
    sqlx::query("select id from peer").fetch_all(&mut *conn).await.unwrap().len()
}

fn run(test: impl std::future::Future<Output = ()>) {
    tokio::runtime::Builder::new_current_thread().enable_all().build().unwrap().block_on(test)
}

#[test]
fn test_insert() {
    run(async {
        let mut conn = table().await;
        let empty_vec = Vec::new();
        for i in 0..10000 {
            let id = i.to_string();
            assert_eq!(insert(&mut conn, &id, &empty_vec, &empty_vec, "").await.len(), 16);
        }
        for i in 0..10000 {
            let id = i.to_string();
            assert_eq!(read(&mut conn, &id).await.unwrap().id, id);
        }
    });
}

#[test]
fn first_insertion_stays() {
    run(async {
        let mut conn = table().await;
        let first = insert(&mut conn, "a", &[1], &[2], "x").await;
        assert_eq!(insert(&mut conn, "a", &[3], &[4], "y").await, first);
        assert_eq!(insert(&mut conn, "a", &[5], &[6], "z").await, first);
        assert_ne!(insert(&mut conn, "b", &[1], &[2], "x").await, first);
        assert_eq!(rows(&mut conn).await, 2);
        let row = read(&mut conn, "a").await.unwrap();
        assert_eq!((row.guid, row.uuid, row.pk), (first, vec![1], vec![2]));
        assert_eq!((row.info.as_str(), row.user, row.status), ("x", None, None));
    });
}

#[test]
fn updates_keep_the_uuid() {
    run(async {
        let mut conn = table().await;
        let guid = insert(&mut conn, "a", &[1], &[2], "x").await;
        assert!(update(&mut conn, &guid, "a", &[9], "y").await);
        assert!(!update(&mut conn, &[0], "a", &[8], "z").await);
        assert_eq!(rows(&mut conn).await, 1);
        let row = read(&mut conn, "a").await.unwrap();
        assert_eq!((row.guid, row.uuid, row.pk), (guid, vec![1], vec![9]));
        assert_eq!(row.info, "y");
    });
}

#[test]
fn taken_names_are_refused() {
    run(async {
        let mut conn = table().await;
        let a = insert(&mut conn, "a", &[1], &[2], "x").await;
        let b = insert(&mut conn, "b", &[3], &[4], "y").await;
        let result = sqlx::query(UPDATE_PK)
            .bind("b")
            .bind(vec![9u8])
            .bind("z")
            .bind(&a)
            .execute(&mut conn)
            .await;
        assert!(result.is_err());
        assert_eq!(peer::finish_update(false), RegisterPkResult::ServerError);
        let row_a = read(&mut conn, "a").await.unwrap();
        let row_b = read(&mut conn, "b").await.unwrap();
        assert_eq!((row_a.guid, row_a.pk, row_a.info.as_str()), (a, vec![2], "x"));
        assert_eq!((row_b.guid, row_b.pk, row_b.info.as_str()), (b, vec![4], "y"));
    });
}

fn register(peer: &mut peer::Peer, uuid: u8, pk: u8, ip: &str, now: u64) -> PkWrite {
    let addr = SocketAddr::V4([1, 2, 3, 4], 5);
    peer.update_pk(addr, vec![uuid], vec![pk], ip.to_owned(), now)
}

#[test]
fn registered_peer_is_reloaded() {
    run(async {
        let mut conn = table().await;
        let mut memory: PeerMap<u64> = PeerMap::new();
        memory.get_or("a", None, 1);
        let mut p = peer::Peer::blank(0);
        assert!(matches!(register(&mut p, 1, 2, "1.1.1.1", 1), PkWrite::Insert));
        let guid = insert(&mut conn, "a", &p.uuid, &p.pk, &p.info.ip).await;
        assert_eq!(p.finish_insert(Some(guid.clone())), RegisterPkResult::Registered);
        match register(&mut p, 3, 4, "2.2.2.2", 2) {
            PkWrite::Update(known) => {
                assert_eq!(known, guid);
                assert!(update(&mut conn, &known, "a", &p.pk, &p.info.ip).await);
            }
            PkWrite::Insert => panic!("inserted again"),
        }
        assert_eq!(p.guid, guid);
        assert_eq!(rows(&mut conn).await, 1);
        assert_eq!(memory.cleanup_memory(600_000_000_001, |seen| Some(*seen)), 1);
        let row = read(&mut conn, "a").await.unwrap();
        let info = PeerInfo { ip: row.info.clone() };
        let loaded = peer::Peer::from_row(row, info, 7);
        assert_eq!((loaded.guid, loaded.uuid, loaded.pk), (guid, vec![1], vec![4]));
        assert_eq!(loaded.info.ip, "2.2.2.2");
        assert_eq!(loaded.last_reg_time, 7);
        assert!(matches!(loaded.socket_addr, SocketAddr::V4([0, 0, 0, 0], 0)));
        assert_eq!(memory.get("a", Some(7)), Some(&7));
    });
}
