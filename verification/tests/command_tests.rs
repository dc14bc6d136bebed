use hbbs::relay_server::command::{list_reply, parse_command, scaled_reply, Command, Step};
use hbbs::relay_server::pairing::{PairStep, RelayRequest};
use hbbs::relay_server::params::{EnvParams, Params, Scaled};
use hbbs::relay_server::usage::{usage_reply, usage_rows};
use hbbs::relay_server::{ListKind, RelayServer};

fn reply(server: &mut RelayServer, cmd: &str) -> String {
    match server.check_cmd(cmd) {
        Step::Reply(text) => text,
        _ => panic!("no plain reply to {:?}", cmd),
    }
}

fn sorted_lines(text: &str) -> Vec<&str> {
    let mut lines: Vec<&str> = text.lines().collect();
    lines.sort();
    lines
}

#[test]
fn help_shows_the_commands() {
    let mut server = RelayServer::new();
    let expected = format!(
        "{}\n{}\n{}\n{}\n{}\n{}\n{}\n{}\n{}\n{}\n{}\n{}\n",
        "blacklist-add(ba) <ip>",
        "blacklist-remove(br) <ip>",
        "blacklist(b) <ip>",
        "blocklist-add(Ba) <ip>",
        "blocklist-remove(Br) <ip>",
        "blocklist(B) <ip>",
        "downgrade-threshold(dt) [value]",
        "downgrade-start-check(t) [value(second)]",
        "limit-speed(ls) [value(Mb/s)]",
        "total-bandwidth(tb) [value(Mb/s)]",
        "single-bandwidth(sb) [value(Mb/s)]",
        "usage(u)"
    );
    assert_eq!(reply(&mut server, "h"), expected);
    assert_eq!(reply(&mut server, " h x y\n"), expected);
}

#[test]
fn unknown_commands_are_answered_with_nothing() {
    let mut server = RelayServer::new();
    for cmd in ["", "  \n", "help", "H", "bb", "ba", "Ba", "br", "Br"] {
        assert_eq!(reply(&mut server, cmd), "", "{:?}", cmd);
    }
    assert_eq!(server.params(), Params::default());
}

#[test]
fn lists_grow_and_shrink() {
    for (list, add, remove, show) in [
        (ListKind::Blacklist, "ba", "br", "b"),
        (ListKind::Blocklist, "Ba", "Br", "B"),
        (ListKind::Blacklist, "blacklist-add", "blacklist-remove", "blacklist"),
        (ListKind::Blocklist, "blocklist-add", "blocklist-remove", "blocklist"),
    ] {
        let mut server = RelayServer::new();
        assert_eq!(reply(&mut server, &format!("{} 1.1.1.1|2.2.2.2|1.1.1.1", add)), "");
        assert_eq!(reply(&mut server, &format!("{} 1.1.1.1", show)), "true\n");
        assert_eq!(reply(&mut server, &format!("{} 3.3.3.3", show)), "false\n");
        assert!(server.is_listed(list, "2.2.2.2"));
        let other = match list {
            ListKind::Blacklist => ListKind::Blocklist,
            ListKind::Blocklist => ListKind::Blacklist,
        };
        assert!(!server.is_listed(other, "2.2.2.2"));
        assert_eq!(
            sorted_lines(&reply(&mut server, show)),
            vec!["1.1.1.1", "2.2.2.2"]
        );
        assert_eq!(reply(&mut server, &format!("{} 1.1.1.1|9.9.9.9", remove)), "");
        assert_eq!(reply(&mut server, show), "2.2.2.2\n");
        assert_eq!(reply(&mut server, &format!("{} 4.4.4.4", add)), "");
        assert_eq!(reply(&mut server, &format!("{} all", remove)), "");
        assert_eq!(reply(&mut server, show), "");
        assert!(!server.is_listed(list, "4.4.4.4"));
    }
}

#[test]
fn removing_undoes_adding() {
    let mut server = RelayServer::new();
    reply(&mut server, "Ba 7.7.7.7");
    reply(&mut server, "Ba 1.1.1.1|2.2.2.2");
    reply(&mut server, "Br 1.1.1.1|2.2.2.2");
    assert_eq!(reply(&mut server, "B"), "7.7.7.7\n");
}

#[test]
fn lists_are_loaded_from_text() {
    let mut server = RelayServer::new();
    server.load_list(ListKind::Blocklist, "1.1.1.1 comment\n\n 2.2.2.2\r\n");
    assert!(server.is_listed(ListKind::Blocklist, "1.1.1.1"));
    assert!(server.is_listed(ListKind::Blocklist, "2.2.2.2"));
    assert!(!server.is_listed(ListKind::Blocklist, "comment"));
    assert!(!server.is_listed(ListKind::Blacklist, "1.1.1.1"));
}

#[test]
fn start_check_is_set_and_shown() {
    let mut server = RelayServer::new();
    assert_eq!(reply(&mut server, "t"), "1800s\n");
    assert_eq!(reply(&mut server, "downgrade-start-check 42"), "");
    assert_eq!(reply(&mut server, "t"), "42s\n");
    assert_eq!(server.params().downgrade_start_check, 42_000);
    for cmd in ["t 0", "t x", "t -1", "t 99999999999999999999"] {
        assert_eq!(reply(&mut server, cmd), "");
        assert_eq!(server.params().downgrade_start_check, 42_000);
    }
    assert!(parse_command("t 18446744073709551").fits());
    assert!(!parse_command("t 18446744073709552").fits());
    assert!(parse_command("h").fits());
}

#[test]
fn scaled_parameters_are_asked_for() {
    let mut server = RelayServer::new();
    for (long, short, which, initial) in [
        ("downgrade-threshold", "dt", Scaled::DowngradeThreshold, 66u64),
        ("limit-speed", "ls", Scaled::LimitSpeed, 4 * 1024 * 1024),
        ("total-bandwidth", "tb", Scaled::TotalBandwidth, 1024 * 1024 * 1024),
        ("single-bandwidth", "sb", Scaled::SingleBandwidth, 16 * 1024 * 1024),
    ] {
        for name in [long, short] {
            match server.check_cmd(name) {
                Step::WriteScaled(w, value) => assert!(w == which && value == initial),
                _ => panic!("{} is not shown", name),
            }
            match server.check_cmd(&format!("{} 0.5", name)) {
                Step::ReadScaled(w, text) => assert!(w == which && text == "0.5"),
                _ => panic!("{} is not set", name),
            }
        }
    }
    assert_eq!(server.params(), Params::default());
}

#[test]
fn scaled_parameters_are_set() {
    let mut server = RelayServer::new();
    assert_eq!(server.set_scaled(Scaled::TotalBandwidth, Some(5)), Some(5));
    assert_eq!(server.set_scaled(Scaled::LimitSpeed, Some(6)), None);
    assert_eq!(server.set_scaled(Scaled::TotalBandwidth, None), None);
    assert_eq!(
        server.params(),
        Params { total_bandwidth: 5, limit_speed: 6, ..Params::default() }
    );
    assert_eq!(scaled_reply(Scaled::DowngradeThreshold, "0.66"), "0.66\n");
    assert_eq!(scaled_reply(Scaled::LimitSpeed, "4"), "4Mb/s\n");
}

#[test]
fn environment_sets_parameters() {
    let mut server = RelayServer::new();
    let env = EnvParams {
        downgrade_threshold_100: Some(50),
        downgrade_start_check: Some("10".to_owned()),
        limit_speed: None,
        total_bandwidth: Some(7),
        single_bandwidth: None,
    };
    assert!(env.in_range());
    server.check_params(&env);
    assert_eq!(
        server.params(),
        Params {
            downgrade_threshold_100: 50,
            downgrade_start_check: 10_000,
            total_bandwidth: 7,
            ..Params::default()
        }
    );
    let nonsense = EnvParams {
        downgrade_threshold_100: None,
        downgrade_start_check: Some("soon".to_owned()),
        limit_speed: None,
        total_bandwidth: None,
        single_bandwidth: None,
    };
    let before = server.params();
    server.check_params(&nonsense);
    assert_eq!(server.params(), before);
    let far = EnvParams {
        downgrade_start_check: Some("18446744073709552".to_owned()),
        ..nonsense
    };
    assert!(!far.in_range());
}

#[test]
fn list_reply_writes_lines() {
    assert_eq!(list_reply(&vec!["a".to_owned(), "b".to_owned()]), "a\nb\n");
    assert_eq!(list_reply(&Vec::new()), "");
}

#[test]
fn usage_is_sorted_by_bits() {
    let entries = vec![
        ("a:1".to_owned(), (2000u64, 8_388_608u64, 9_000u64, 10u64)),
        ("idle:1".to_owned(), (0, 0, 0, 0)),
        ("b:2".to_owned(), (1500, 16_777_216, 20_000, 30)),
        ("c:3".to_owned(), (999, 8_388_608, 1, 2)),
    ];
    let rows = usage_rows(&entries);
    let order: Vec<&str> = rows.iter().map(|row| row.ip.as_str()).collect();
    assert_eq!(order, vec!["b:2", "a:1", "c:3"]);
    assert_eq!(rows[0].seconds, 1);
    assert_eq!(rows[0].average, 11_184);
    assert_eq!(rows[2].seconds, 0);
    let megabytes: Vec<String> = rows
        .iter()
        .map(|row| format!("{:.2}", row.bits as f64 / 1024. / 1024. / 8.))
        .collect();
    assert_eq!(
        usage_reply(&rows, &megabytes),
        "b:2: 1s 2.00MB 20000bit/ms 11184bit/ms 30bit/ms\n\
         a:1: 2s 1.00MB 9000bit/ms 4194bit/ms 10bit/ms\n\
         c:3: 0s 1.00MB 1bit/ms 8397bit/ms 2bit/ms\n"
    );
    assert_eq!(usage_reply(&Vec::new(), &Vec::new()), "");
}

#[test]
fn usage_command_shows_running_sessions() {
    let mut server = RelayServer::new();
    let request = RelayRequest { licence_key: String::new(), uuid: "u".to_owned() };
    server.make_pair("", &request, "1.1.1.1", 1, false);
    let id = match server.make_pair("", &request, "2.2.2.2", 2, false) {
        PairStep::Paired { id, .. } => id,
        _ => panic!("not paired"),
    };
    match server.check_cmd("u") {
        Step::WriteUsage(rows) => assert!(rows.is_empty()),
        _ => panic!("no table"),
    }
    let mut session = server.start_session("2.2.2.2".to_owned(), id, 0);
    session.on_data(1_000_000, 1000);
    server.relay_tick(&mut session, 1_000_000_000);
    match server.check_cmd("usage") {
        Step::WriteUsage(rows) => {
            assert_eq!(rows.len(), 1);
            assert_eq!(rows[0].ip, "2.2.2.2:2");
            assert_eq!(rows[0].seconds, 1);
            assert_eq!(rows[0].bits, 8000);
            assert_eq!(rows[0].highest, 8);
            assert_eq!(rows[0].average, 8);
            assert_eq!(rows[0].speed, 8);
        }
        _ => panic!("no table"),
    }
    server.end_relay("2.2.2.2:2");
    match server.run_command(&Command::Usage) {
        Step::WriteUsage(rows) => assert!(rows.is_empty()),
        _ => panic!("no table"),
    }
}
