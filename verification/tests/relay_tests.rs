use hbbs::relay_server::address::{
    forwarded_addr, parse_port, read_header, session_addr, session_id, websocket_port,
};
use hbbs::peer::SocketAddr;
use hbbs::relay_server::command::Step;
use hbbs::relay_server::frame::{frame_bytes, WsItem};
use hbbs::relay_server::key::{get_server_sk, public_half, wants_generated};
use hbbs::relay_server::pairing::{Admission, PairStep, RelayRequest};
use hbbs::relay_server::params::Scaled;
use hbbs::relay_server::session::{session_end, DataStep, Pace, StreamEnd, TickStep};
use hbbs::relay_server::{ListKind, RelayServer};
use hbbs::text::NumberError;

const SECOND: u64 = 1_000_000_000;
const MILLI: u64 = 1_000_000;

fn request(licence_key: &str, uuid: &str) -> RelayRequest {
    RelayRequest { licence_key: licence_key.to_owned(), uuid: uuid.to_owned() }
}

fn wait(server: &mut RelayServer, uuid: &str, ws: bool) -> u64 {
    match server.make_pair("", &request("", uuid), "1.1.1.1", 1, ws) {
        PairStep::Waiting { insert_id } => insert_id,
        _ => panic!("{} does not wait", uuid),
    }
}

fn meet(server: &mut RelayServer, uuid: &str, ws: bool) -> (u64, String, bool) {
    match server.make_pair("", &request("", uuid), "2.2.2.2", 21117, ws) {
        PairStep::Paired { peer, id, raw } => (peer, id, raw),
        _ => panic!("{} is not paired", uuid),
    }
}

#[test]
fn two_sides_meet() {
    let mut server = RelayServer::new();
    for (first, second, raw) in [
        (false, false, true),
        (true, false, false),
        (false, true, false),
        (true, true, false),
    ] {
        let insert_id = wait(&mut server, "u", first);
        assert_eq!(
            meet(&mut server, "u", second),
            (insert_id, "2.2.2.2:21117".to_owned(), raw)
        );
    }
}

#[test]
fn insertions_are_numbered() {
    let mut server = RelayServer::new();
    assert_eq!(wait(&mut server, "a", false), 0);
    assert_eq!(wait(&mut server, "b", false), 1);
    assert_eq!(meet(&mut server, "b", false).0, 1);
    assert_eq!(meet(&mut server, "a", false).0, 0);
}

#[test]
fn refused_requests_change_nothing() {
    let mut server = RelayServer::new();
    assert!(matches!(
        server.make_pair("key", &request("other", "u"), "1.1.1.1", 1, false),
        PairStep::Dropped
    ));
    assert!(matches!(
        server.make_pair("key", &request("", "u"), "1.1.1.1", 1, false),
        PairStep::Dropped
    ));
    assert!(matches!(
        server.make_pair("", &request("", ""), "1.1.1.1", 1, false),
        PairStep::Dropped
    ));
    assert!(matches!(
        server.make_pair("key", &request("key", "u"), "1.1.1.1", 1, false),
        PairStep::Waiting { insert_id: 0 }
    ));
}

#[test]
fn any_key_will_do_without_one() {
    let mut server = RelayServer::new();
    assert!(matches!(
        server.make_pair("", &request("whatever", "u"), "1.1.1.1", 1, false),
        PairStep::Waiting { .. }
    ));
}

#[test]
fn wait_ends() {
    let mut server = RelayServer::new();
    let insert_id = wait(&mut server, "u", false);
    server.expire("u", insert_id);
    assert_eq!(wait(&mut server, "u", false), insert_id + 1);
}

#[test]
fn late_end_of_a_wait_is_harmless() {
    let mut server = RelayServer::new();
    let first = wait(&mut server, "u", false);
    meet(&mut server, "u", false);
    let third = wait(&mut server, "u", true);
    server.expire("u", first);
    server.expire("v", third);
    assert_eq!(meet(&mut server, "u", false).0, third);
}

#[test]
fn connections_are_admitted() {
    let mut server = RelayServer::new();
    server.load_list(ListKind::Blocklist, "1.1.1.1\n127.0.0.1");
    server.load_list(ListKind::Blacklist, "2.2.2.2");
    assert_eq!(server.handle_connection(false, true, "127.0.0.1"), Admission::Command);
    assert_eq!(server.handle_connection(true, true, "127.0.0.1"), Admission::Blocked);
    assert_eq!(server.handle_connection(false, false, "1.1.1.1"), Admission::Blocked);
    assert_eq!(server.handle_connection(false, false, "2.2.2.2"), Admission::Relay);
    assert_eq!(server.handle_connection(true, true, "::1"), Admission::Relay);
}

#[test]
fn data_is_counted() {
    let server = RelayServer::new();
    let mut session = server.start_session("1.1.1.1".to_owned(), "1.1.1.1:1".to_owned(), 5);
    assert_eq!(session.downgrade_threshold, 11_072);
    assert_eq!(session.single_bandwidth, 16 * 1024 * 1024);
    assert_eq!(session.limit_speed, 4 * 1024 * 1024);
    assert_eq!(
        session.on_data(10, 100),
        DataStep { bits: 800, pace: Pace::Single, forward: true }
    );
    assert_eq!(
        session.on_data(20, 0),
        DataStep { bits: 0, pace: Pace::Single, forward: false }
    );
    assert_eq!(session.on_data(30, 1).bits, 8);
    assert_eq!(session.total, 808);
    assert_eq!(session.total_s, 808);
    assert_eq!(session.last_recv_time, 30);
    assert!(session.has_room(1000));
    assert!(!session.has_room(usize::MAX));
}

#[test]
fn intervals_are_counted() {
    let mut server = RelayServer::new();
    wait(&mut server, "u", false);
    let (_, id, _) = meet(&mut server, "u", false);
    let mut session = server.start_session("2.2.2.2".to_owned(), id, 0);
    assert_eq!(server.relay_tick(&mut session, 0), TickStep::Idle);
    session.on_data(SECOND / 2, 2000);
    assert_eq!(
        server.relay_tick(&mut session, SECOND),
        TickStep::Counted { downgraded: false }
    );
    assert_eq!(session.elapsed, 1000);
    assert_eq!(session.highest_s, 16);
    session.on_data(SECOND, 1000);
    server.relay_tick(&mut session, 2 * SECOND);
    assert_eq!(session.elapsed, 2000);
    assert_eq!(session.total, 24_000);
    assert_eq!(session.total_s, 0);
    assert_eq!(session.highest_s, 16);
    assert_eq!(session.tm, 2 * SECOND);
}

#[test]
fn early_looks_are_harmless() {
    let mut server = RelayServer::new();
    wait(&mut server, "u", false);
    let (_, id, _) = meet(&mut server, "u", false);
    let mut session = server.start_session("2.2.2.2".to_owned(), id, 5);
    session.on_data(6, 1000);
    assert_eq!(server.relay_tick(&mut session, 6), TickStep::Early);
    assert_eq!(server.relay_tick(&mut session, MILLI + 4), TickStep::Early);
    assert_eq!((session.tm, session.total_s, session.elapsed), (5, 8000, 0));
    match server.check_cmd("u") {
        Step::WriteUsage(rows) => assert!(rows.is_empty()),
        _ => panic!("no table"),
    }
    assert_eq!(
        server.relay_tick(&mut session, MILLI + 5),
        TickStep::Counted { downgraded: false }
    );
    assert_eq!(session.highest_s, 8000);
}

#[test]
fn only_sending_fails_a_session() {
    assert!(!session_end(StreamEnd::Closed));
    assert!(!session_end(StreamEnd::ReceiveFailed));
    assert!(session_end(StreamEnd::SendFailed));
}

#[test]
fn silence_ends_a_session() {
    let mut server = RelayServer::new();
    let mut session = server.start_session("1.1.1.1".to_owned(), "x".to_owned(), 0);
    assert_eq!(server.relay_tick(&mut session, 31 * SECOND - 1), TickStep::Idle);
    assert_eq!(server.relay_tick(&mut session, 31 * SECOND), TickStep::Timeout);
}

#[test]
fn lists_are_asked_every_five_seconds() {
    let mut server = RelayServer::new();
    let mut session = server.start_session("1.1.1.1".to_owned(), "x".to_owned(), 0);
    server.load_list(ListKind::Blacklist, "1.1.1.1");
    server.relay_tick(&mut session, 5 * SECOND - 1);
    assert_eq!(session.on_data(5 * SECOND - 1, 1).pace, Pace::Single);
    server.relay_tick(&mut session, 5 * SECOND + MILLI);
    assert_eq!(session.on_data(5 * SECOND + MILLI, 1).pace, Pace::Limited);
    server.check_cmd("br all");
    server.load_list(ListKind::Blocklist, "1.1.1.1");
    assert!(matches!(
        server.relay_tick(&mut session, 9 * SECOND),
        TickStep::Counted { .. }
    ));
    assert_eq!(server.relay_tick(&mut session, 10 * SECOND + MILLI), TickStep::Blocked);
}

#[test]
fn fast_sessions_are_slowed_down_for_good() {
    let mut server = RelayServer::new();
    server.check_cmd("t 1");
    server.set_scaled(Scaled::SingleBandwidth, Some(100_000));
    server.set_scaled(Scaled::DowngradeThreshold, Some(100));
    let mut session = server.start_session("1.1.1.1".to_owned(), "x".to_owned(), 0);
    assert_eq!(session.downgrade_threshold, 100);
    session.on_data(1, 12_500);
    assert_eq!(
        server.relay_tick(&mut session, SECOND),
        TickStep::Counted { downgraded: false }
    );
    session.on_data(SECOND, 25_001);
    assert_eq!(
        server.relay_tick(&mut session, 2 * SECOND),
        TickStep::Counted { downgraded: true }
    );
    session.on_data(3 * SECOND, 1);
    assert_eq!(
        server.relay_tick(&mut session, 20 * SECOND),
        TickStep::Counted { downgraded: false }
    );
    assert_eq!(session.on_data(20 * SECOND, 1).pace, Pace::Limited);
}

#[test]
fn mean_speed_at_the_threshold_is_not_too_fast() {
    let mut server = RelayServer::new();
    server.check_cmd("t 1");
    server.set_scaled(Scaled::SingleBandwidth, Some(100_000));
    server.set_scaled(Scaled::DowngradeThreshold, Some(100));
    let mut session = server.start_session("1.1.1.1".to_owned(), "x".to_owned(), 0);
    session.on_data(1, 25_000);
    assert_eq!(
        server.relay_tick(&mut session, 2 * SECOND),
        TickStep::Counted { downgraded: false }
    );
}

#[test]
fn session_without_account_is_not_shown() {
    let mut server = RelayServer::new();
    let mut session = server.start_session("1.1.1.1".to_owned(), "x".to_owned(), 0);
    session.on_data(1, 100);
    server.relay_tick(&mut session, SECOND);
    match server.check_cmd("u") {
        hbbs::relay_server::command::Step::WriteUsage(rows) => assert!(rows.is_empty()),
        _ => panic!("no table"),
    }
}

#[test]
fn ports_are_read() {
    assert_eq!(parse_port("21117"), Ok(21117));
    assert_eq!(parse_port(""), Err(NumberError::Empty));
    assert_eq!(parse_port("65536"), Err(NumberError::PosOverflow));
    assert_eq!(parse_port("2x"), Err(NumberError::InvalidDigit));
    assert_eq!(websocket_port(21117), 21119);
    assert_eq!(websocket_port(65533), 65535);
}

#[test]
fn sessions_are_named() {
    assert_eq!(session_id("1.2.3.4", 0), "1.2.3.4:0");
    assert_eq!(session_id("::1", 65535), "::1:65535");
}

#[test]
fn forwarded_addresses_are_taken() {
    let v4: &[u8] = b"1.2.3.4";
    let v6: &[u8] = b"2001:db8::1";
    let odd: &[u8] = b"1.2.3.4\xff";
    assert_eq!(forwarded_addr(Some(v4), None), Some("1.2.3.4:0".to_owned()));
    assert_eq!(forwarded_addr(None, Some(v4)), Some("1.2.3.4:0".to_owned()));
    assert_eq!(forwarded_addr(Some(v6), Some(v4)), Some("[2001:db8::1]:0".to_owned()));
    assert_eq!(forwarded_addr(Some(odd), Some(v4)), None);
    assert_eq!(forwarded_addr(None, None), None);
}

#[test]
fn named_address_takes_the_place_of_the_callers() {
    let caller = SocketAddr::V4([1, 2, 3, 4], 5);
    let named = SocketAddr::V6([1, 0, 0, 0, 0, 0, 0, 2], 0, 3, 4);
    assert!(matches!(
        session_addr(Some(named), caller),
        SocketAddr::V6([1, 0, 0, 0, 0, 0, 0, 2], 0, 3, 4)
    ));
    assert!(matches!(session_addr(None, caller), SocketAddr::V4([1, 2, 3, 4], 5)));
}

#[test]
fn only_binary_items_are_data() {
    assert_eq!(frame_bytes(WsItem::Binary(vec![1, 2])), vec![1, 2]);
    assert!(frame_bytes(WsItem::Other).is_empty());
}

#[test]
fn headers_are_those_of_the_http_crate() {
    for b in 0..=255u8 {
        if let Ok(value) = tungstenite::http::HeaderValue::from_bytes(&[b'a', b]) {
            assert_eq!(
                read_header(value.as_bytes()),
                value.to_str().ok().map(|text| text.to_owned()),
                "{}",
                b
            );
        }
    }
}

#[test]
fn secret_keys_give_their_public_half() {
    let secret: Vec<u8> = (0..64u8).collect();
    let public: Vec<u8> = (32..64u8).collect();
    let key = base64::encode(&secret);
    let out = get_server_sk(&key, || panic!("nothing is to be generated"));
    assert_eq!(out, "ICEiIyQlJicoKSorLC0uLzAxMjM0NTY3ODk6Ozw9Pj8=");
    assert_eq!(base64::decode(&out).unwrap(), public);
    assert_eq!(get_server_sk(&out, || panic!("nothing is to be generated")), out);
    assert_eq!(public_half(Some(secret)), Some(public.clone()));
    assert_eq!(public_half(Some(public)), None);
    assert_eq!(public_half(None), None);
}

#[test]
fn other_keys_stay() {
    for key in ["", "key", "not base64!", "AAAA"] {
        assert_eq!(get_server_sk(key, || panic!("nothing is to be generated")), key);
        assert!(!wants_generated(key));
    }
}

#[test]
fn keys_are_generated() {
    for key in ["-", "_"] {
        assert!(wants_generated(key));
        assert_eq!(get_server_sk(key, || "generated".to_owned()), "generated");
    }
}
