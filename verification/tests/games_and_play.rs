//! Chess rules, the spectator feed, the round games, and the session
//! phase table.

use colosseum::games::chess::board::{ChessBoard, Color, Piece, Tile};
use colosseum::games::chess::chess_move::{Move, MoveType, Point};
use colosseum::games::chess::instance::{ChessTurn, TurnEvent, refreshColor};
use colosseum::games::roshambo::{Throw, parse_throw, round};
use colosseum::games::royalur::{Position, Token, UrBoard};
use colosseum::json::str_to_chars;
use colosseum::play::{MatchFeed, chunk_history};
use colosseum::proto::{Reply, Request};
use colosseum::session::{
    accepts, handshake_step, joined_step, lobby_stream_step, play_step, spectate_step, Phase,
    JoinedEvent, LobbyStreamEvent, PlayEvent, SpectateEvent,
};

fn chars(s: &str) -> Vec<char> {
    str_to_chars(s)
}

fn text(v: &[char]) -> String {
    v.iter().collect()
}

#[test]
fn piece_and_move_parsing() {
    assert_eq!(Piece::parse(&chars("queen")), Some(Piece::Queen));
    assert_eq!(Piece::parse(&chars("duke")), None);
    assert_eq!(
        MoveType::parse(&chars("e2 e4")),
        Some(MoveType::Basic(Move {
            from: Point { x: 4, y: 1 },
            to: Point { x: 4, y: 3 },
        }))
    );
    assert_eq!(
        MoveType::parse(&chars("promote a7 a8 queen")),
        Some(MoveType::Promotion(
            Move { from: Point { x: 0, y: 6 }, to: Point { x: 0, y: 7 } },
            Piece::Queen,
        ))
    );
    assert_eq!(MoveType::parse(&chars("z9 a1")), None);
    assert_eq!(MoveType::parse(&chars("one")), None);
}

#[test]
fn initial_board_and_tiles() {
    let b = ChessBoard::new();
    assert_eq!(b.tile_at(Point { x: 4, y: 0 }), Tile::Piece(Piece::King, Color::White));
    assert_eq!(b.tile_at(Point { x: 4, y: 7 }), Tile::Piece(Piece::King, Color::Black));
    assert_eq!(b.tile_at(Point { x: 0, y: 1 }), Tile::Piece(Piece::Pawn, Color::White));
    assert_eq!(b.tile_at(Point { x: 3, y: 3 }), Tile::Empty);
    assert_eq!(b.tile_at(Point { x: 0, y: 0 }).display(), " R");
    assert_eq!(Tile::Empty.display(), "  ");
}

#[test]
fn legal_and_illegal_moves() {
    let b = ChessBoard::new();
    let e2e4 = MoveType::parse(&chars("e2 e4"));
    assert!(b.check_move(e2e4, Color::White));
    // black cannot move white's pawn
    assert!(!b.check_move(e2e4, Color::Black));
    // a rook cannot jump over its own pawn
    let a1a3 = MoveType::parse(&chars("a1 a3"));
    assert!(!b.check_move(a1a3, Color::White));
    // knights can
    let b1c3 = MoveType::parse(&chars("b1 c3"));
    assert!(b.check_move(b1c3, Color::White));
    assert!(!b.check_move(None, Color::White));
}

#[test]
fn fools_mate_is_detected() {
    // 1. f3 e5  2. g4 Qh4 is checkmate for white.
    let mut b = ChessBoard::new();
    for (line, color) in [
        ("f2 f3", Color::White),
        ("e7 e5", Color::Black),
        ("g2 g4", Color::White),
        ("d8 h4", Color::Black),
    ] {
        let mv = MoveType::parse(&chars(line));
        assert!(b.check_move(mv, color), "move {} must be legal", line);
        b = b.apply_move_type(mv.unwrap());
    }
    assert!(b.check_king_check(Color::White));
    assert!(b.check_king_mate(Color::White));
    assert!(!b.check_king_mate(Color::Black));
}

#[test]
fn turn_colors_alternate() {
    assert_eq!(refreshColor(0), Color::White);
    assert_eq!(refreshColor(1), Color::Black);
}

#[test]
fn silent_player_is_retired() {
    // A player that never sends is evicted when the timeout elapses;
    // the opponent and the spectators receive the retire signal.
    let mut t = ChessTurn::new();
    let out = t.step(TurnEvent::Timeout);
    assert!(out.over);
    assert_eq!(text(&out.to_other.unwrap()), "RETIRE");
    assert_eq!(text(&out.to_spectators.unwrap()), "RETIRE");
}

#[test]
fn turn_applies_moves_and_echoes() {
    let mut t = ChessTurn::new();
    let out = t.step(TurnEvent::Line(chars("e2 e4")));
    assert!(out.advanced);
    assert!(!out.over);
    assert_eq!(text(&out.to_other.unwrap()), "OK <e2> <e4>");
    assert_eq!(t.turn, 1);
    // an illegal move changes nothing
    let out = t.step(TurnEvent::Line(chars("e2 e4")));
    assert!(!out.advanced);
    assert!(!out.over);
    assert_eq!(t.turn, 1);
}

#[test]
fn draw_negotiation() {
    let mut t = ChessTurn::new();
    let out = t.step(TurnEvent::Line(chars("DRAW")));
    assert!(!out.over);
    assert_eq!(text(&out.to_other.unwrap()), "DRAW <PROPOSED>");
    let out = t.step(TurnEvent::Line(chars("DRAW")));
    assert!(out.over);
    assert_eq!(text(&out.to_other.unwrap()), "DRAW <ACCEPTED>");
}

#[test]
fn explicit_retire_ends_the_game() {
    let mut t = ChessTurn::new();
    let out = t.step(TurnEvent::Line(chars("RETIRE")));
    assert!(out.over);
    assert_eq!(text(&out.to_other.unwrap()), "RETIRE");
}

#[test]
fn roshambo_round_outcomes() {
    assert_eq!(parse_throw(&chars("ROCK")), Some(Throw::Rock));
    assert_eq!(parse_throw(&chars("rock")), None);
    let out = round(Some(Throw::Rock), Some(Throw::Paper));
    assert!(out.go_on);
    assert_eq!(text(&out.to_first), "PAPER");
    assert_eq!(text(&out.to_second), "ROCK");
    let lines: Vec<String> = out.to_spectators.iter().map(|l| text(l)).collect();
    assert_eq!(lines, vec!["ROCK", "PAPER"]);
    // a silent player retires; the spectators see the retire in its
    // place and the surviving player's line
    let out = round(None, Some(Throw::Rock));
    assert!(!out.go_on);
    assert!(out.to_first.is_empty());
    assert_eq!(text(&out.to_second), "RETIRE");
    let lines: Vec<String> = out.to_spectators.iter().map(|l| text(l)).collect();
    assert_eq!(lines, vec!["RETIRE", "ROCK"]);
}

#[test]
fn spectator_catch_up() {
    // A spectator that subscribes after "hello" was produced first
    // receives exactly "hello", then the live bytes.
    let mut feed = MatchFeed::new();
    feed.append(&b"hello".to_vec());
    let snapshot = feed.subscribe();
    assert_eq!(snapshot, b"hello".to_vec());
    feed.append(&b" world".to_vec());
    let mut observed = snapshot;
    observed.extend_from_slice(b" world");
    assert_eq!(observed, feed.history);
}

#[test]
fn history_replay_chunks() {
    let history: Vec<u8> = (0..=255u8).cycle().take(3_000_000).collect();
    let chunks = chunk_history(&history);
    // maximal chunks: exactly ceil(len / CHUNK_SIZE) of them, all
    // but the last completely full
    assert_eq!(chunks.len(), 3);
    assert!(chunks[..2].iter().all(|c| c.len() == 1_048_576));
    assert!(chunks.iter().all(|c| c.len() <= 1_048_576));
    let glued: Vec<u8> = chunks.into_iter().flatten().collect();
    assert_eq!(glued, history);
    // "hello" replays as one frame; an empty history as none
    assert_eq!(chunk_history(&b"hello".to_vec()), vec![b"hello".to_vec()]);
    assert!(chunk_history(&Vec::new()).is_empty());
}

#[test]
fn session_phase_table() {
    assert!(accepts(Phase::Main, &Request::GameList));
    assert!(accepts(Phase::Main, &Request::LobbyList));
    assert!(!accepts(Phase::Main, &Request::LobbyUnsubscribe));
    assert!(!accepts(Phase::Main, &Request::SpectateLeave));
    assert!(accepts(Phase::LobbySubscribed, &Request::LobbyUnsubscribe));
    assert!(!accepts(Phase::LobbySubscribed, &Request::GameList));
    assert!(accepts(Phase::Joined, &Request::LobbyLeaveMatch));
    assert!(accepts(Phase::Spectating, &Request::SpectateLeave));
    assert!(!accepts(Phase::Playing, &Request::GameList));
}

#[test]
fn session_event_tables() {
    // spectating: live bytes become one binary frame each; the end
    // of the game acknowledges and leaves the sub-state
    let id = chars("abc123");
    let d = spectate_step(&id, SpectateEvent::SpectatorData(b"hello".to_vec()));
    assert!(d.replies.is_empty());
    assert_eq!(d.data, Some(b"hello".to_vec()));
    assert!(!d.done && !d.hangup);
    let d = spectate_step(&id, SpectateEvent::Started);
    assert_eq!(d.replies.len(), 2);
    assert!(matches!(d.replies[0], Reply::SpectateStarted));
    assert!(matches!(d.replies[1], Reply::SpectateSynced));
    let d = spectate_step(&id, SpectateEvent::Ended);
    assert!(matches!(d.replies[0], Reply::SpectateEnded));
    assert!(d.done);
    let d = spectate_step(&id, SpectateEvent::Lagged);
    assert!(d.hangup);
    // joined: expiry reports the deletion and ends the sub-state
    let d = joined_step(&id, &JoinedEvent::Expired);
    assert!(matches!(&d.replies[0], Reply::LobbyDelete { .. }));
    assert!(d.done);
    let d = joined_step(&id, &JoinedEvent::Started);
    assert!(matches!(d.replies[0], Reply::MatchStarted));
    assert!(!d.done);
    // playing: the game's end acknowledges and returns to main
    let d = play_step(&PlayEvent::Ended);
    assert!(matches!(d.replies[0], Reply::MatchEnded));
    assert!(d.done);
    // lobby stream: an unsubscribe is acknowledged
    let d = lobby_stream_step(LobbyStreamEvent::UnsubscribeRequest);
    assert!(matches!(d.replies[0], Reply::LobbyUnsubscribed));
    assert!(d.done);
    let d = lobby_stream_step(LobbyStreamEvent::Delete(chars("x")));
    assert!(matches!(&d.replies[0], Reply::LobbyDelete { .. }));
}

#[test]
fn session_handshake_decision() {
    let good = Request::Handshake { magic: chars("coco"), version: 1 };
    let step = handshake_step(&good).unwrap();
    assert!(step.proceed);
    let bad = Request::Handshake { magic: chars("coco"), version: 999 };
    let step = handshake_step(&bad).unwrap();
    assert!(!step.proceed);
    assert!(handshake_step(&Request::GameList).is_none());
}

#[test]
fn royalur_moves_from_start() {
    let b = UrBoard::new();
    assert!(!b.finished());
    // entering with a roll of one lands on the player's own row
    assert_eq!(UrBoard::advance(Position::Start(0), 1, 0), Some(Position::Board(0, 3)));
    assert_eq!(UrBoard::advance(Position::Start(1), 1, 1), Some(Position::Board(2, 3)));
    // a roll of four reaches the entry rosette
    assert_eq!(UrBoard::advance(Position::Start(0), 4, 0), Some(Position::Board(0, 0)));
    // every token can enter from a fresh board
    assert_eq!(b.valid_moves(0, 1), vec![0, 1, 2, 3, 4, 5, 6]);
}

#[test]
fn royalur_capture_and_rosette() {
    let mut b = UrBoard::new();
    // player 0 enters on a rosette and gets another roll
    assert_eq!(b.make_move(0, 0, 4), Ok(true));
    assert_eq!(b.board[0][0], Some(Token { player: 0, index: 0 }));
    // player 0 cannot stack a second token on its own square
    assert!(b.make_move(0, 1, 4).is_err());
    // both players march into the shared middle row; player 1
    // captures player 0's token there
    assert_eq!(b.make_move(0, 0, 1), Ok(false));
    assert_eq!(b.make_move(1, 0, 4), Ok(true));
    assert_eq!(b.make_move(1, 0, 1), Ok(false));
    assert_eq!(b.board[1][0], Some(Token { player: 1, index: 0 }));
    assert_eq!(b.position[1][0], Position::Board(1, 0));
    // the captured token is back at its start and can re-enter
    assert_eq!(b.position[0][0], Position::Start(0));
    assert_eq!(b.make_move(0, 0, 4), Ok(true));
    // out-of-range token indexes are refused
    assert!(b.make_move(0, 9, 1).is_err());
}
