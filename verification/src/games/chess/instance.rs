//! The turn logic of a running chess match.
//!
//! A match instance reads one line per turn from the player to move;
//! the decision taken for each line, or for the timeout when the
//! player stays silent, is the step function here.  The surrounding
//! pipe and timer work is untrusted plumbing.

use vstd::prelude::*;
use crate::games::chess::board::{ChessBoard, Color, spec_check_move, spec_apply_move_type, spec_king_mate};
use crate::games::chess::chess_move::{MoveType, split_words, spec_parse_move_type};
use crate::json::{chars_eq, push_chars, str_to_chars};
use crate::lobby::clone_chars;

verus! {

/// The side to move on a turn: white moves on even turns.
pub open spec fn spec_refresh_color(turn: usize) -> Color {
    if turn == 0 {
        Color::White
    } else {
        Color::Black
    }
}

/// The side to move on a turn.
pub fn refreshColor(turn: usize) -> (r: Color)
    ensures
        r == spec_refresh_color(turn),
{
    if turn == 0 {
        Color::White
    } else {
        Color::Black
    }
}

/// What a turn's input was.
pub enum TurnEvent {
    /// A trimmed line arrived from the player to move.
    Line(Vec<char>),
    /// The per-move timeout elapsed, or the player's pipe closed.
    Timeout,
}

/// What the coordinator must do after a turn.
pub struct TurnOutput {
    /// Text for the player who moved.
    pub to_current: Option<Vec<char>>,
    /// Text for the other player.
    pub to_other: Option<Vec<char>>,
    /// Text for the spectator stream.
    pub to_spectators: Option<Vec<char>>,
    /// Whether the game is over.
    pub over: bool,
    /// Whether the board changed and the turn passed to the other
    /// player.
    pub advanced: bool,
}

/// The `<word> <word>` echo of an accepted move line.
pub open spec fn spec_tagged_words(ws: Seq<Seq<char>>) -> Seq<char>
    decreases ws.len(),
{
    if ws.len() == 0 {
        Seq::empty()
    } else if ws.len() == 1 {
        "<"@ + ws[0] + ">"@
    } else {
        spec_tagged_words(ws.drop_last()) + " <"@ + ws.last() + ">"@
    }
}

/// Wraps each word of an accepted line in angle brackets.
pub fn tagged_words(ws: &Vec<Vec<char>>) -> (r: Vec<char>)
    requires
        ws@.len() >= 1,
    ensures
        r@ == spec_tagged_words(ws.deep_view()),
{
    let mut r: Vec<char> = Vec::new();
    let lt = str_to_chars("<");
    let gt = str_to_chars(">");
    let sp = str_to_chars(" <");
    push_chars(&mut r, &lt);
    push_chars(&mut r, &ws[0]);
    push_chars(&mut r, &gt);
    proof {
        assert(ws.deep_view()[0] == ws@[0]@);
        assert(ws.deep_view().take(1).drop_last() =~= Seq::<Seq<char>>::empty());
        assert(ws.deep_view().take(1).len() == 1);
        assert(ws.deep_view().take(1)[0] == ws.deep_view()[0]);
        assert(r@ =~= spec_tagged_words(ws.deep_view().take(1)));
    }
    let mut i: usize = 1;
    while i < ws.len()
        invariant
            1 <= i <= ws@.len(),
            sp@ == " <"@,
            gt@ == ">"@,
            r@ == spec_tagged_words(ws.deep_view().take(i as int)),
        decreases ws@.len() - i,
    {
        push_chars(&mut r, &sp);
        push_chars(&mut r, &ws[i]);
        push_chars(&mut r, &gt);
        proof {
            let dv = ws.deep_view();
            assert(dv[i as int] == ws@[i as int]@);
            assert(dv.take(i + 1 as int).drop_last() =~= dv.take(i as int));
            assert(dv.take(i + 1 as int).last() == dv[i as int]);
            assert(dv.take(i + 1 as int).len() == i + 1);
            assert(spec_tagged_words(dv.take(i + 1 as int))
                == spec_tagged_words(dv.take(i as int)) + " <"@ + dv[i as int] + ">"@);
            assert(r@ =~= spec_tagged_words(dv.take(i as int)) + " <"@ + dv[i as int] + ">"@);
        }
        i = i + 1;
    }
    proof {
        assert(ws.deep_view().take(ws.deep_view().len() as int) =~= ws.deep_view());
    }
    r
}

/// The state of a running chess match between two players.
pub struct ChessTurn {
    pub board: ChessBoard,
    /// 0 while white is to move, 1 while black is.
    pub turn: usize,
    /// Whether a draw offer is pending.
    pub draw_pending: bool,
}

impl ChessTurn {
    /// A fresh match state.
    pub fn new() -> (r: ChessTurn)
        ensures
            r.board.wf(),
            r.turn == 0,
            !r.draw_pending,
    {
        ChessTurn { board: ChessBoard::new(), turn: 0, draw_pending: false }
    }

    /// Decides one turn.
    ///
    /// A player who lets the timeout elapse, closes its pipe or sends
    /// an empty line retires: the opponent and the spectators receive
    /// the retire signal and the game ends.  A pending draw offer is
    /// settled by the answer line.  A legal move is applied, echoed
    /// to everyone, and passes the turn; anything else is ignored.
    pub fn step(&mut self, event: TurnEvent) -> (out: TurnOutput)
        requires
            old(self).board.wf(),
            old(self).turn <= 1,
        ensures
            final(self).board.wf(),
            final(self).turn <= 1,
            match event {
                TurnEvent::Timeout => {
                    &&& out.over
                    &&& out.to_other matches Some(m) && m@ == "RETIRE"@
                    &&& out.to_spectators matches Some(m) && m@ == "RETIRE"@
                    &&& final(self).board == old(self).board
                },
                TurnEvent::Line(line) => {
                    if line@.len() == 0 {
                        &&& out.over
                        &&& out.to_other matches Some(m) && m@ == "RETIRE"@
                        &&& out.to_spectators matches Some(m) && m@ == "RETIRE"@
                    } else if old(self).draw_pending {
                        if line@ == "DRAW"@ {
                            &&& out.over
                            &&& out.to_other matches Some(m) && m@ == "DRAW <ACCEPTED>"@
                        } else {
                            &&& !out.over
                            &&& !final(self).draw_pending
                            &&& final(self).turn != old(self).turn
                            &&& out.to_other matches Some(m) && m@ == "DRAW <REFUSED>"@
                        }
                    } else if spec_check_move(old(self).board.grid(), old(self).board.played(),
                            spec_parse_move_type(line@), spec_refresh_color(old(self).turn)) {
                        &&& out.advanced
                        &&& !out.over
                        &&& final(self).turn != old(self).turn
                        &&& (final(self).board.grid(), final(self).board.played())
                            == spec_apply_move_type(old(self).board.grid(), old(self).board.played(),
                                spec_parse_move_type(line@)->Some_0)
                        &&& out.to_other matches Some(m)
                            && m@ == "OK "@ + spec_tagged_words(split_words(line@))
                    } else if line@ == "RETIRE"@ {
                        &&& out.over
                        &&& out.to_other matches Some(m) && m@ == "RETIRE"@
                        &&& out.to_spectators matches Some(m) && m@ == "RETIRE"@
                    } else if line@ == "DRAW"@ {
                        &&& !out.over
                        &&& final(self).draw_pending
                        &&& final(self).turn != old(self).turn
                        &&& out.to_other matches Some(m) && m@ == "DRAW <PROPOSED>"@
                    } else {
                        &&& !out.over
                        &&& !out.advanced
                        &&& final(self).board == old(self).board
                    }
                },
            },
    {
        let line = match event {
            TurnEvent::Timeout => {
                return TurnOutput {
                    to_current: None,
                    to_other: Some(str_to_chars("RETIRE")),
                    to_spectators: Some(str_to_chars("RETIRE")),
                    over: true,
                    advanced: false,
                };
            },
            TurnEvent::Line(line) => line,
        };
        if line.len() == 0 {
            return TurnOutput {
                to_current: None,
                to_other: Some(str_to_chars("RETIRE")),
                to_spectators: Some(str_to_chars("RETIRE")),
                over: true,
                advanced: false,
            };
        }
        let draw_kw = str_to_chars("DRAW");
        if self.draw_pending {
            if chars_eq(&line, &draw_kw) {
                return TurnOutput {
                    to_current: None,
                    to_other: Some(str_to_chars("DRAW <ACCEPTED>")),
                    to_spectators: Some(str_to_chars("DRAW <ACCEPTED>")),
                    over: true,
                    advanced: false,
                };
            }
            self.draw_pending = false;
            self.turn = 1 - self.turn;
            return TurnOutput {
                to_current: None,
                to_other: Some(str_to_chars("DRAW <REFUSED>")),
                to_spectators: Some(str_to_chars("DRAW <REFUSED>")),
                over: false,
                advanced: false,
            };
        }
        let color = refreshColor(self.turn);
        let opt = MoveType::parse(&line);
        if self.board.check_move(opt, color) {
            let t = match opt {
                Some(t) => t,
                None => {
                    return TurnOutput {
                        to_current: None,
                        to_other: None,
                        to_spectators: None,
                        over: false,
                        advanced: false,
                    };
                },
            };
            let words = crate::games::chess::chess_move::words_of(&line);
            proof {
                crate::games::chess::chess_move::lemma_split_words_len(line@);
            }
            let tagged = tagged_words(&words);
            let mut msg = str_to_chars("OK ");
            push_chars(&mut msg, &tagged);
            let msg2 = clone_chars(&msg);
            let msg3 = clone_chars(&msg);
            proof {
                match t {
                    MoveType::Promotion(m, p) => {
                        assert(crate::games::chess::board::at(self.board.grid(), m.from)
                            is Piece);
                    },
                    _ => {},
                }
            }
            self.board = self.board.apply_move_type(t);
            self.turn = 1 - self.turn;
            return TurnOutput {
                to_current: Some(msg),
                to_other: Some(msg2),
                to_spectators: Some(msg3),
                over: false,
                advanced: true,
            };
        }
        let retire_kw = str_to_chars("RETIRE");
        if chars_eq(&line, &retire_kw) {
            return TurnOutput {
                to_current: None,
                to_other: Some(str_to_chars("RETIRE")),
                to_spectators: Some(str_to_chars("RETIRE")),
                over: true,
                advanced: false,
            };
        }
        if chars_eq(&line, &draw_kw) {
            self.draw_pending = true;
            self.turn = 1 - self.turn;
            return TurnOutput {
                to_current: Some(str_to_chars("DRAW <PROPOSED>")),
                to_other: Some(str_to_chars("DRAW <PROPOSED>")),
                to_spectators: Some(str_to_chars("DRAW <PROPOSED>")),
                over: false,
                advanced: false,
            };
        }
        TurnOutput {
            to_current: None,
            to_other: None,
            to_spectators: None,
            over: false,
            advanced: false,
        }
    }

    /// Whether the side to move is checkmated, ending the game.
    pub fn mated(&self) -> (r: bool)
        requires
            self.board.wf(),
        ensures
            r == spec_king_mate(self.board.grid(), self.board.played(), spec_refresh_color(self.turn)),
    {
        self.board.check_king_mate(refreshColor(self.turn))
    }
}

} // verus!
