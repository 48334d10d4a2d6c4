//! Wire codec and archive descriptor tests.

use colosseum::archive::{MatchData, check_archive_id, descriptor_path};
use colosseum::json::str_to_chars;
use colosseum::proto::{GameParams, HandshakeOutcome, MatchInfo, Reply, Request, classify_handshake};

fn chars(s: &str) -> Vec<char> {
    str_to_chars(s)
}

fn text(v: &[char]) -> String {
    v.iter().collect()
}

#[test]
fn handshake_request_round_trip() {
    let req = Request::Handshake { magic: chars("coco"), version: 1 };
    let wire = req.forge();
    assert_eq!(text(&wire), "{\"Handshake\":{\"magic\":\"coco\",\"version\":1}}");
    match Request::parse(&wire) {
        Some(Request::Handshake { magic, version }) => {
            assert_eq!(text(&magic), "coco");
            assert_eq!(version, 1);
        }
        other => panic!("wrong parse: {:?}", other),
    }
}

#[test]
fn handshake_mismatch_is_classified() {
    // A peer with the right magic but version 999 sees a version
    // mismatch, not a foreign server.
    let outcome = classify_handshake(&chars("coco"), 999);
    assert_eq!(outcome, HandshakeOutcome::VersionMismatch);
    let outcome = classify_handshake(&chars("zzzz"), 1);
    assert_eq!(outcome, HandshakeOutcome::NotColosseum);
    let outcome = classify_handshake(&chars("coco"), 1);
    assert_eq!(outcome, HandshakeOutcome::Accepted);
}

#[test]
fn game_new_round_trip() {
    let req = Request::GameNew {
        name: chars("A's game"),
        game: chars("roshambo"),
        params: GameParams { players: Some(2), bots: 0, timeout_ms: Some(30_000) },
        args: vec![(chars("rounds"), chars("3"))],
        password: Some(chars("s3cret")),
        verification: None,
    };
    let wire = req.forge();
    let s = text(&wire);
    assert!(s.contains("\"timeout\":30"));
    assert!(s.contains("\"password\":\"s3cret\""));
    assert!(s.contains("\"verification\":null"));
    // the canonical frame is valid JSON
    assert!(serde_json::from_str::<serde_json::Value>(&s).is_ok());
    match Request::parse(&wire) {
        Some(Request::GameNew { name, game, params, args, password, verification }) => {
            assert_eq!(text(&name), "A's game");
            assert_eq!(text(&game), "roshambo");
            assert_eq!(params.players, Some(2));
            assert_eq!(params.bots, 0);
            assert_eq!(params.timeout_ms, Some(30_000));
            assert_eq!(args.len(), 1);
            assert_eq!(text(&args[0].0), "rounds");
            assert_eq!(text(&args[0].1), "3");
            assert_eq!(password.map(|p| text(&p)), Some("s3cret".to_string()));
            assert!(verification.is_none());
        }
        other => panic!("wrong parse: {:?}", other),
    }
}

#[test]
fn trailing_zero_timeout_is_read() {
    // the form common serializers emit for a whole-second timeout
    let frame = chars("{\"GameNew\":{\"name\":\"n\",\"game\":\"g\",\"params\":{\"players\":2,\"bots\":0,\"timeout\":30.0},\"args\":{},\"password\":null,\"verification\":null}}");
    match Request::parse(&frame) {
        Some(Request::GameNew { params, .. }) => assert_eq!(params.timeout_ms, Some(30_000)),
        other => panic!("wrong parse: {:?}", other),
    }
}

#[test]
fn fractional_timeout_round_trip() {
    let req = Request::GameNew {
        name: chars("n"),
        game: chars("g"),
        params: GameParams { players: None, bots: 0, timeout_ms: Some(100) },
        args: vec![],
        password: None,
        verification: None,
    };
    let wire = req.forge();
    let s = text(&wire);
    assert!(s.contains("\"timeout\":0.1"), "got {}", s);
    match Request::parse(&wire) {
        Some(Request::GameNew { params, .. }) => assert_eq!(params.timeout_ms, Some(100)),
        other => panic!("wrong parse: {:?}", other),
    }
}

#[test]
fn unit_requests_round_trip() {
    for (req, textform) in [
        (Request::GameList, "\"GameList\""),
        (Request::LobbyList, "\"LobbyList\""),
        (Request::LobbySubscribe, "\"LobbySubscribe\""),
        (Request::LobbyUnsubscribe, "\"LobbyUnsubscribe\""),
        (Request::LobbyLeaveMatch, "\"LobbyLeaveMatch\""),
        (Request::SpectateLeave, "\"SpectateLeave\""),
        (Request::HistoryMatchList, "\"HistoryMatchList\""),
    ] {
        let wire = req.forge();
        assert_eq!(text(&wire), textform);
        assert!(Request::parse(&wire).is_some());
    }
}

#[test]
fn malformed_requests_are_rejected() {
    assert!(Request::parse(&chars("")).is_none());
    assert!(Request::parse(&chars("GameList")).is_none());
    assert!(Request::parse(&chars("{\"GameNew\":{}}")).is_none());
    assert!(Request::parse(&chars("\"GameList\"x")).is_none());
    assert!(Request::parse(&chars("{\"Handshake\":{\"magic\":\"coco\",\"version\":-1}}")).is_none());
}

fn sample_info() -> MatchInfo {
    MatchInfo {
        players: 2,
        bots: 0,
        timeout_ms: 30_000,
        args: vec![],
        id: chars("abcdefgh0123456"),
        name: chars("A's game"),
        game: chars("roshambo"),
        running: false,
        time: 1_700_000_000,
        connected: vec![],
        spectators: 0,
        password: false,
        verified: false,
    }
}

#[test]
fn lobby_list_reply_round_trip() {
    let reply = Reply::LobbyList { info: vec![sample_info()] };
    let wire = reply.forge();
    let s = text(&wire);
    assert!(s.contains("\"running\":false"));
    assert!(s.contains("\"connected\":[]"));
    assert!(s.contains("\"spectators\":0"));
    assert!(serde_json::from_str::<serde_json::Value>(&s).is_ok());
    match Reply::parse(&wire) {
        Some(Reply::LobbyList { info }) => {
            assert_eq!(info.len(), 1);
            assert_eq!(text(&info[0].id), "abcdefgh0123456");
            assert_eq!(info[0].players, 2);
            assert!(!info[0].running);
        }
        other => panic!("wrong parse: {:?}", other),
    }
}

#[test]
fn joined_reply_with_connected_round_trip() {
    let mut info = sample_info();
    info.connected = vec![chars("alice")];
    let reply = Reply::LobbyJoinedMatch { info: Ok(info) };
    let wire = reply.forge();
    match Reply::parse(&wire) {
        Some(Reply::LobbyJoinedMatch { info: Ok(i) }) => {
            assert_eq!(i.connected.len(), 1);
            assert_eq!(text(&i.connected[0]), "alice");
        }
        other => panic!("wrong parse: {:?}", other),
    }
}

#[test]
fn error_reply_round_trip() {
    let reply = Reply::GameNew { id: Err(chars("Wrong password")) };
    let wire = reply.forge();
    assert_eq!(text(&wire), "{\"GameNew\":{\"id\":{\"Err\":\"Wrong password\"}}}");
    match Reply::parse(&wire) {
        Some(Reply::GameNew { id: Err(e) }) => assert_eq!(text(&e), "Wrong password"),
        other => panic!("wrong parse: {:?}", other),
    }
}

#[test]
fn string_escapes_round_trip() {
    let nasty: Vec<char> = "a\"b\\c\n\u{1}d".chars().collect();
    let req = Request::GameDescription { name: nasty.clone() };
    let wire = req.forge();
    let s = text(&wire);
    assert!(s.contains("\\\""));
    assert!(s.contains("\\\\"));
    assert!(s.contains("\\u000a"));
    assert!(serde_json::from_str::<serde_json::Value>(&s).is_ok());
    match Request::parse(&wire) {
        Some(Request::GameDescription { name }) => assert_eq!(name, nasty),
        other => panic!("wrong parse: {:?}", other),
    }
}

#[test]
fn archive_record_round_trip() {
    // Round trip of an archive record: equal values, byte-identical
    // history.
    let record = MatchData {
        id: chars("abc123"),
        game_name: chars("chess"),
        args: vec![(chars("pace"), chars("1.5"))],
        players: vec![chars("alice"), chars("bob")],
        bot_count: 1,
        history: vec![0, 1, 2, 255, 128, 7],
    };
    let wire = record.forge();
    let s = text(&wire);
    assert!(serde_json::from_str::<serde_json::Value>(&s).is_ok());
    let back = MatchData::parse(&wire).expect("must parse");
    assert_eq!(back.id, record.id);
    assert_eq!(back.game_name, record.game_name);
    assert_eq!(back.args, record.args);
    assert_eq!(back.players, record.players);
    assert_eq!(back.bot_count, record.bot_count);
    assert_eq!(back.history, record.history);
}

#[test]
fn history_reply_round_trip() {
    let record = MatchData {
        id: chars("abc123"),
        game_name: chars("chess"),
        args: vec![],
        players: vec![chars("alice")],
        bot_count: 0,
        history: vec![104, 101, 108, 108, 111],
    };
    let reply = Reply::HistoryMatch { data: Ok(record) };
    let wire = reply.forge();
    match Reply::parse(&wire) {
        Some(Reply::HistoryMatch { data: Ok(r) }) => {
            assert_eq!(text(&r.id), "abc123");
            assert_eq!(r.history, vec![104, 101, 108, 108, 111]);
        }
        other => panic!("wrong parse: {:?}", other),
    }
    let reply = Reply::HistoryMatch { data: Err(colosseum::archive::DatabaseError::InvalidID) };
    let wire = reply.forge();
    assert_eq!(text(&wire), "{\"HistoryMatch\":{\"Err\":\"InvalidID\"}}");
    assert!(Reply::parse(&wire).is_some());
}

#[test]
fn archive_id_validation() {
    assert!(check_archive_id(&chars("abc123XYZ")));
    assert!(!check_archive_id(&chars("")));
    assert!(!check_archive_id(&chars("../etc/passwd")));
    assert!(!check_archive_id(&chars("a/b")));
    assert!(!check_archive_id(&chars("a.b")));
}

#[test]
fn descriptor_path_shape() {
    let p = descriptor_path(&chars("/var/archive"), &chars("abc123"));
    assert_eq!(text(&p), "/var/archive/abc123/descriptor.json");
}
