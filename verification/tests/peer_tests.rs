use hbbs::database::{self, insert_peer, max_connections, new_guid, DbPool, InsertStep};
use hbbs::peer::{
    db_url, finish_update, DbHome, Peer, PeerInfo, PeerMap, PkWrite, RegisterPkResult,
    SocketAddr,
    DAY_SECONDS, IP_BLOCK_DUR, IP_CHANGE_DUR, IP_CHANGE_DUR_X2,
};

const SECOND: u64 = 1_000_000_000;

fn register(peer: &mut Peer, now: u64) -> PkWrite {
    peer.update_pk(
        SocketAddr::V4([1, 2, 3, 4], 5),
        vec![1, 2],
        vec![3, 4],
        "1.2.3.4".to_owned(),
        now,
    )
}

#[test]
fn durations_are_as_documented() {
    assert_eq!(IP_CHANGE_DUR, 180);
    assert_eq!(IP_CHANGE_DUR_X2, IP_CHANGE_DUR * 2);
    assert_eq!(DAY_SECONDS, 3600 * 24);
    assert_eq!(IP_BLOCK_DUR, 60);
}

#[test]
fn blank_peer_is_unspecified() {
    let peer = Peer::blank(7);
    assert!(matches!(peer.socket_addr, SocketAddr::V4([0, 0, 0, 0], 0)));
    assert!(matches!(
        peer.socket_addr_v6,
        SocketAddr::V6([0, 0, 0, 0, 0, 0, 0, 0], 0, 0, 0)
    ));
    assert_eq!(peer.last_reg_time, 7);
    assert_eq!(peer.reg_pk, (0, 7));
    assert!(peer.guid.is_empty() && peer.uuid.is_empty() && peer.pk.is_empty());
    assert_eq!(peer.info.ip, "");
}

#[test]
fn stored_peer_is_taken_over() {
    let row = database::Peer {
        guid: vec![1],
        uuid: vec![2],
        pk: vec![3],
        ..Default::default()
    };
    let peer = Peer::from_row(row, PeerInfo { ip: "1.2.3.4".to_owned() }, 7);
    assert_eq!(peer.guid, vec![1]);
    assert_eq!(peer.uuid, vec![2]);
    assert_eq!(peer.pk, vec![3]);
    assert_eq!(peer.info.ip, "1.2.3.4");
    assert_eq!(peer.last_reg_time, 7);
    assert!(matches!(peer.socket_addr, SocketAddr::V4([0, 0, 0, 0], 0)));
}

#[test]
fn peer_is_inserted_once() {
    let mut peer = Peer::blank(0);
    assert!(matches!(register(&mut peer, 9), PkWrite::Insert));
    assert_eq!(peer.last_reg_time, 9);
    assert_eq!(peer.uuid, vec![1, 2]);
    assert_eq!(peer.pk, vec![3, 4]);
    assert_eq!(peer.info.ip, "1.2.3.4");
    assert!(matches!(peer.socket_addr, SocketAddr::V4([1, 2, 3, 4], 5)));
    assert_eq!(peer.finish_insert(None), RegisterPkResult::ServerError);
    assert!(matches!(register(&mut peer, 10), PkWrite::Insert));
    assert_eq!(peer.finish_insert(Some(vec![8, 8])), RegisterPkResult::Registered);
    match register(&mut peer, 11) {
        PkWrite::Update(guid) => assert_eq!(guid, vec![8, 8]),
        PkWrite::Insert => panic!("inserted again"),
    }
    assert_eq!(finish_update(true), RegisterPkResult::Registered);
    assert_eq!(finish_update(false), RegisterPkResult::ServerError);
}

#[test]
fn peer_in_memory_is_not_replaced() {
    let mut map: PeerMap<u32> = PeerMap::new();
    assert_eq!(map.get_in_memory("a"), None);
    assert_eq!(map.get("a", None), None);
    assert!(!map.is_in_memory("a"));
    assert_eq!(map.get("a", Some(1)), Some(&1));
    assert_eq!(map.get("a", Some(2)), Some(&1));
    assert_eq!(map.get("a", None), Some(&1));
    assert_eq!(*map.get_or("a", Some(3), 4), 1);
    assert_eq!(*map.get_or("b", Some(3), 4), 3);
    assert_eq!(*map.get_or("c", None, 4), 4);
    assert!(map.is_in_memory("a") && map.is_in_memory("b") && map.is_in_memory("c"));
    assert_eq!(map.get_in_memory("c"), Some(&4));
}

#[test]
fn inactive_peers_leave_the_memory() {
    let mut map: PeerMap<Option<u64>> = PeerMap::new();
    map.get("old", Some(Some(0)));
    map.get("edge", Some(Some(1)));
    map.get("new", Some(Some(500 * SECOND)));
    map.get("busy", Some(None));
    map.get("ahead", Some(Some(900 * SECOND)));
    assert_eq!(map.cleanup_memory(600 * SECOND, |seen| *seen), 1);
    assert!(!map.is_in_memory("old"));
    for id in ["edge", "new", "busy", "ahead"] {
        assert!(map.is_in_memory(id), "{}", id);
    }
    assert_eq!(map.get_in_memory("new"), Some(&Some(500 * SECOND)));
    assert_eq!(map.cleanup_memory(600 * SECOND, |seen| *seen), 0);
    assert_eq!(map.get("old", Some(Some(600 * SECOND))), Some(&Some(600 * SECOND)));
    assert_eq!(map.cleanup_memory(2000 * SECOND, |seen| *seen), 4);
    assert!(map.is_in_memory("busy"));
}

#[test]
fn guids_are_random() {
    let a = new_guid();
    let b = new_guid();
    assert_eq!(a.len(), 16);
    assert_eq!(a[6] >> 4, 4);
    assert_eq!(a[8] >> 6, 2);
    assert_ne!(a, b);
}

#[test]
fn insertion_hands_on_the_guid_of_the_table() {
    match insert_peer(vec![1], 1) {
        InsertStep::Inserted(guid) => assert_eq!(guid, vec![1]),
        InsertStep::ReadGuid => panic!("inserted"),
    }
    assert!(matches!(insert_peer(vec![1], 0), InsertStep::ReadGuid));
    assert!(database::update_pk(1));
    assert!(!database::update_pk(0));
}

#[test]
fn connections_are_counted() {
    assert_eq!(max_connections(None), 4);
    assert_eq!(max_connections(Some("12")), 12);
    assert_eq!(max_connections(Some("many")), 4);
    assert_eq!(max_connections(Some("0")), 0);
}

#[test]
fn databases_are_named() {
    assert_eq!(db_url(None, &DbHome::Written), "./db_v2.sqlite3");
    assert_eq!(db_url(None, &DbHome::Plain), "db_v2.sqlite3");
    let folder = DbHome::Folder("C:\\hbbs".to_owned());
    assert_eq!(db_url(None, &folder), "C:\\hbbs\\db_v2.sqlite3");
    for home in [DbHome::Written, DbHome::Plain, folder] {
        assert_eq!(db_url(Some("x.sqlite3"), &home), "x.sqlite3");
    }
    assert_eq!(DbPool::new("x.sqlite3").url(), "x.sqlite3");
}

#[test]
fn default_row_is_empty() {
    let row = database::Peer::default();
    assert!(row.guid.is_empty() && row.id.is_empty() && row.uuid.is_empty());
    assert!(row.pk.is_empty() && row.user.is_none());
    assert!(row.info.is_empty() && row.status.is_none());
}
