//! Lobby life cycle tests: creation, joining, leaving, passwords,
//! expiry, and id uniqueness.

use colosseum::json::str_to_chars;
use colosseum::lobby::{Lobby, LobbyError, decode_match_id, encode_match_id};

fn chars(s: &str) -> Vec<char> {
    str_to_chars(s)
}

fn text(v: &[char]) -> String {
    v.iter().collect()
}

fn fresh_lobby() -> Lobby {
    Lobby::new(chars("adminpw"))
}

const HOUR: u64 = 3_600_000;

fn create(l: &mut Lobby, entropy: u64, name: &str, pw: Option<&str>) -> Vec<char> {
    l.new_game_commit(
        HOUR,
        entropy,
        chars(name),
        chars("roshambo"),
        2,
        0,
        30_000,
        vec![],
        pw.map(chars),
        false,
    )
    .expect("creation must succeed")
}

#[test]
fn lobby_roundtrip_create_list_join_start() {
    // A created match is listed as waiting; the first join shows the
    // player; the second join fills the match and starts it.
    let mut l = fresh_lobby();
    let id = create(&mut l, 7, "A's game", None);
    let key = decode_match_id(&id).expect("own id must decode");

    let list = l.get_list();
    assert_eq!(list.len(), 1);
    assert_eq!(list[0].id, id);
    assert!(!list[0].running);
    assert!(list[0].connected.is_empty());
    assert_eq!(list[0].spectators, 0);

    let (info, started) = l.join_match(HOUR + 1, key, chars("alice"), None).expect("join");
    assert!(!started);
    assert_eq!(info.connected.iter().map(|c| text(c)).collect::<Vec<_>>(), vec!["alice"]);

    let (info, started) = l.join_match(HOUR + 2, key, chars("bob"), None).expect("join");
    assert!(started);
    assert!(info.running);
    assert_eq!(info.connected.len(), 2);

    // a running match refuses further joins
    match l.join_match(HOUR + 3, key, chars("carol"), None) {
        Err(LobbyError::AlreadyRunning(_)) => {}
        other => panic!("expected running error, got {:?}", other),
    }
}

#[test]
fn created_ids_are_distinct() {
    // Starting many matches yields pairwise distinct ids, even with
    // colliding entropy.
    let mut l = fresh_lobby();
    let mut ids = Vec::new();
    for _ in 0..10 {
        ids.push(text(&create(&mut l, 42, "game", None)));
    }
    for i in 0..ids.len() {
        for j in 0..ids.len() {
            if i != j {
                assert_ne!(ids[i], ids[j]);
            }
        }
    }
}

#[test]
fn password_gate() {
    // Wrong password refused, right password accepted.
    let mut l = fresh_lobby();
    let id = create(&mut l, 9, "locked", Some("s3cret"));
    let key = decode_match_id(&id).unwrap();
    match l.join_match(HOUR, key, chars("eve"), Some(chars("wrong"))) {
        Err(e) => assert_eq!(text(&e.message()), "Wrong password"),
        Ok(_) => panic!("wrong password must be refused"),
    }
    let (_, started) = l.join_match(HOUR, key, chars("alice"), Some(chars("s3cret"))).expect("join");
    assert!(!started);
}

#[test]
fn join_then_leave_then_expire() {
    // After a leave the player is gone from the directory; with no
    // further joins the match is reaped once its deadline passes.
    let mut l = fresh_lobby();
    let id = create(&mut l, 1, "shortlived", None);
    let key = decode_match_id(&id).unwrap();
    l.join_match(HOUR, key, chars("alice"), None).expect("join");
    l.leave_match(HOUR + 1, key, &chars("alice")).expect("leave");
    let list = l.get_list();
    assert!(list[0].connected.is_empty());

    // not yet expired
    let removed = l.reap(HOUR + 2);
    assert!(removed.is_empty());

    // deadline passed: the match is removed and spectating it fails
    let removed = l.reap(HOUR + 1 + 600_000);
    assert_eq!(removed.len(), 1);
    assert_eq!(removed[0].id, id);
    assert!(l.get_list().is_empty());
    match l.spectate_match(key) {
        Err(e) => assert!(text(&e.message()).contains("does not exists")),
        Ok(_) => panic!("expired match must be gone"),
    }
}

#[test]
fn creation_parameter_checks() {
    let mut l = fresh_lobby();
    match l.new_game_commit(HOUR, 0, chars("g"), chars("x"), 2, 2, 30_000, vec![], None, false) {
        Err(LobbyError::AllBots) => {}
        other => panic!("expected all-bots error, got {:?}", other),
    }
    match l.new_game_commit(HOUR, 0, chars("g"), chars("x"), 101, 0, 30_000, vec![], None, false) {
        Err(LobbyError::TooManyPlayers(101)) => {}
        other => panic!("expected too-many error, got {:?}", other),
    }
    match l.new_game_commit(HOUR, 0, chars("g"), chars("x"), 2, 0, 50, vec![], None, false) {
        Err(LobbyError::BadTimeout(50)) => {}
        other => panic!("expected timeout error, got {:?}", other),
    }
}

#[test]
fn precheck_names_and_verification() {
    let l = fresh_lobby();
    match l.new_game_precheck(&chars("fine name"), &None, &None) {
        Ok(v) => assert!(!v),
        Err(_) => panic!("plain creation must pass the precheck"),
    }
    assert!(l.new_game_precheck(&chars(""), &None, &None).is_err());
    assert!(l.new_game_precheck(&chars("ok"), &Some(chars("has space")), &None).is_err());
    match l.new_game_precheck(&chars("ok"), &None, &Some(chars("adminpw"))) {
        Ok(v) => assert!(v),
        Err(_) => panic!("right admin password must verify"),
    }
    assert!(l.new_game_precheck(&chars("ok"), &None, &Some(chars("nope"))).is_err());
}

#[test]
fn usernames_are_validated_and_unique() {
    let mut l = fresh_lobby();
    let id = create(&mut l, 3, "g", None);
    let key = decode_match_id(&id).unwrap();
    match l.join_match(HOUR, key, chars("has space"), None) {
        Err(e) => assert!(text(&e.message()).contains("not a valid username")),
        Ok(_) => panic!("invalid username accepted"),
    }
    match l.join_match(HOUR, key, chars("uses$dollar"), None) {
        Err(e) => assert!(text(&e.message()).contains("not a valid username")),
        Ok(_) => panic!("dollar sign accepted"),
    }
    l.join_match(HOUR, key, chars("alice"), None).expect("join");
    match l.join_match(HOUR, key, chars("alice"), None) {
        Err(e) => assert!(text(&e.message()).contains("already taken")),
        Ok(_) => panic!("duplicate name accepted"),
    }
}

#[test]
fn match_id_text_decodes_back() {
    for id in [0u64, 1, 42, u64::MAX] {
        let t = encode_match_id(id);
        assert_eq!(t.len(), 13);
        assert!(t.iter().all(|c| c.is_ascii_alphanumeric()));
        assert_eq!(decode_match_id(&t), Some(id));
    }
}

#[test]
fn spectate_reports_running_state() {
    let mut l = fresh_lobby();
    let id = create(&mut l, 5, "g", None);
    let key = decode_match_id(&id).unwrap();
    let (info, running) = l.spectate_match(key).expect("spectate");
    assert!(!running);
    assert_eq!(info.id, id);
    l.join_match(HOUR, key, chars("alice"), None).unwrap();
    l.join_match(HOUR, key, chars("bob"), None).unwrap();
    let (_, running) = l.spectate_match(key).expect("spectate");
    assert!(running);
}

#[test]
fn next_deadline_tracks_waiting_matches() {
    let mut l = fresh_lobby();
    assert_eq!(l.next_deadline(), None);
    create(&mut l, 1, "g", None);
    assert_eq!(l.next_deadline(), Some(HOUR + 600_000));
}
