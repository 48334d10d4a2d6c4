//! Chess moves and their text form.

use vstd::prelude::*;
use crate::games::chess::board::Piece;
use crate::json::str_to_chars;

verus! {

/// A square of the board; files map to `x`, ranks to `y`.
#[derive(Copy, Clone, PartialEq, Eq, Structural, Debug)]
pub struct Point {
    pub x: usize,
    pub y: usize,
}

/// A move from one square to another.
#[derive(Copy, Clone, PartialEq, Eq, Structural, Debug)]
pub struct Move {
    pub from: Point,
    pub to: Point,
}

/// The kinds of chess moves a player can submit.
#[derive(Copy, Clone, PartialEq, Eq, Structural, Debug)]
pub enum MoveType {
    Basic(Move),
    EnPassant(Move),
    Promotion(Move, Piece),
    Castling(Move, Move),
}

/// A square is on the board.
pub open spec fn point_in_bounds(p: Point) -> bool {
    p.x < 8 && p.y < 8
}

/// Both ends of a move are on the board.
pub open spec fn move_in_bounds(m: Move) -> bool {
    point_in_bounds(m.from) && point_in_bounds(m.to)
}

/// Every square a move kind names is on the board.
pub open spec fn move_type_in_bounds(t: MoveType) -> bool {
    match t {
        MoveType::Basic(m) => move_in_bounds(m),
        MoveType::EnPassant(m) => move_in_bounds(m),
        MoveType::Promotion(m, p) => move_in_bounds(m),
        MoveType::Castling(k, r) => move_in_bounds(k) && move_in_bounds(r),
    }
}

/// Parses a square written as file letter and rank digit.
pub open spec fn spec_parse_point(s: Seq<char>) -> Option<Point> {
    if s.len() != 2 {
        None
    } else if 'a' <= s[0] && s[0] <= 'h' && '1' <= s[1] && s[1] <= '8' {
        Some(Point { x: ((s[0] as u32) - ('a' as u32)) as usize, y: ((s[1] as u32) - ('1' as u32)) as usize })
    } else {
        None
    }
}

impl Point {
    /// Parses a square; accepts exactly `a1` through `h8`.
    pub fn parse(input: &Vec<char>) -> (r: Option<Point>)
        ensures
            r == spec_parse_point(input@),
            r matches Some(p) ==> point_in_bounds(p),
    {
        if input.len() != 2 {
            return None;
        }
        let x = input[0];
        let y = input[1];
        if 'a' <= x && x <= 'h' && '1' <= y && y <= '8' {
            Some(Point { x: ((x as u32) - ('a' as u32)) as usize, y: ((y as u32) - ('1' as u32)) as usize })
        } else {
            None
        }
    }
}

/// Parses two squares into a move.
pub open spec fn spec_parse_move(from: Seq<char>, to: Seq<char>) -> Option<Move> {
    match (spec_parse_point(from), spec_parse_point(to)) {
        (Some(f), Some(t)) => Some(Move { from: f, to: t }),
        _ => None,
    }
}

impl Move {
    /// Parses a move from its two squares.
    pub fn parse(from: &Vec<char>, to: &Vec<char>) -> (r: Option<Move>)
        ensures
            r == spec_parse_move(from@, to@),
            r matches Some(m) ==> move_in_bounds(m),
    {
        match (Point::parse(from), Point::parse(to)) {
            (Some(f), Some(t)) => Some(Move { from: f, to: t }),
            _ => None,
        }
    }
}

/// Splits a line into words at single spaces; adjacent separators
/// yield empty words, as the source text is split verbatim.
pub open spec fn split_words(s: Seq<char>) -> Seq<Seq<char>>
    decreases s.len(),
{
    if s.len() == 0 {
        seq![Seq::empty()]
    } else if s[0] == ' ' {
        seq![Seq::<char>::empty()] + split_words(s.drop_first())
    } else {
        let r = split_words(s.drop_first());
        seq![seq![s[0]] + r[0]] + r.drop_first()
    }
}

/// There is always at least one word.
pub proof fn lemma_split_words_len(s: Seq<char>)
    ensures
        split_words(s).len() >= 1,
    decreases s.len(),
{
    if s.len() > 0 {
        lemma_split_words_len(s.drop_first());
    }
}

/// Splits a line into words.
pub fn words_of(s: &Vec<char>) -> (r: Vec<Vec<char>>)
    ensures
        r.deep_view() == split_words(s@),
{
    let mut done: Vec<Vec<char>> = Vec::new();
    let mut cur: Vec<char> = Vec::new();
    let mut j: usize = 0;
    proof {
        assert(s@.skip(0) =~= s@);
        lemma_split_words_len(s@.skip(0));
        assert(split_words(s@) =~= done.deep_view()
            + seq![cur@ + split_words(s@.skip(0))[0]] + split_words(s@.skip(0)).drop_first());
    }
    while j < s.len()
        invariant
            j <= s@.len(),
            split_words(s@) == done.deep_view()
                + seq![cur@ + split_words(s@.skip(j as int))[0]]
                + split_words(s@.skip(j as int)).drop_first(),
        decreases s@.len() - j,
    {
        let c = s[j];
        let ghost rem = s@.skip(j as int);
        proof {
            assert(rem[0] == s@[j as int]);
            assert(rem.drop_first() =~= s@.skip(j + 1 as int));
            lemma_split_words_len(s@.skip(j + 1 as int));
        }
        if c == ' ' {
            let ghost prevdone = done.deep_view();
            let ghost curv = cur@;
            let word = cur;
            done.push(word);
            cur = Vec::new();
            proof {
                let rn = split_words(s@.skip(j + 1 as int));
                assert(split_words(rem) == seq![Seq::<char>::empty()] + rn);
                assert(done.deep_view() =~~= prevdone.push(curv));
                assert(curv + split_words(rem)[0] =~= curv);
                assert(prevdone + seq![curv + split_words(rem)[0]] + split_words(rem).drop_first()
                    =~= done.deep_view() + seq![cur@ + rn[0]] + rn.drop_first()) by {
                    assert(split_words(rem).drop_first() =~= rn);
                    assert(cur@ + rn[0] =~= rn[0]);
                }
            }
        } else {
            let ghost curv = cur@;
            cur.push(c);
            proof {
                let rn = split_words(s@.skip(j + 1 as int));
                assert(split_words(rem) == seq![seq![rem[0]] + rn[0]] + rn.drop_first());
                assert(curv + split_words(rem)[0] =~= cur@ + rn[0]);
                assert(split_words(rem).drop_first() =~= rn.drop_first());
            }
        }
        j = j + 1;
    }
    let ghost curv = cur@;
    done.push(cur);
    proof {
        assert(s@.skip(s@.len() as int) =~= Seq::<char>::empty());
        let rn = split_words(s@.skip(s@.len() as int));
        assert(rn == seq![Seq::<char>::empty()]);
        assert(curv + rn[0] =~= curv);
        assert(rn.drop_first() =~= Seq::<Seq<char>>::empty());
        assert(done.deep_view() =~~= done.deep_view().drop_last().push(curv));
        assert(done.deep_view() =~= done.deep_view().drop_last()
            + seq![curv + rn[0]] + rn.drop_first());
    }
    done
}

/// Parses a submitted move line: two squares for a basic move, or a
/// keyword form for en passant, promotion and castling.
pub open spec fn spec_parse_move_type(s: Seq<char>) -> Option<MoveType> {
    let w = split_words(s);
    if w.len() == 2 {
        match spec_parse_move(w[0], w[1]) {
            Some(m) => Some(MoveType::Basic(m)),
            None => None,
        }
    } else if w.len() == 3 {
        if w[0] != "enpassant"@ {
            None
        } else {
            match spec_parse_move(w[1], w[2]) {
                Some(m) => Some(MoveType::EnPassant(m)),
                None => None,
            }
        }
    } else if w.len() == 4 {
        if w[0] != "promote"@ {
            None
        } else {
            match (spec_parse_move(w[1], w[2]), crate::games::chess::board::spec_parse_piece(w[3])) {
                (Some(m), Some(p)) => Some(MoveType::Promotion(m, p)),
                _ => None,
            }
        }
    } else if w.len() == 5 {
        if w[0] != "castle"@ {
            None
        } else {
            match (spec_parse_move(w[1], w[2]), spec_parse_move(w[3], w[4])) {
                (Some(k), Some(r)) => Some(MoveType::Castling(k, r)),
                _ => None,
            }
        }
    } else {
        None
    }
}

impl MoveType {
    /// Parses a submitted move line.
    pub fn parse(input: &Vec<char>) -> (r: Option<MoveType>)
        ensures
            r == spec_parse_move_type(input@),
            r matches Some(t) ==> move_type_in_bounds(t),
    {
        let w = words_of(input);
        proof {
            assert(forall|i: int| 0 <= i < w@.len() ==> w.deep_view()[i] == w@[i]@);
        }
        if w.len() == 2 {
            match Move::parse(&w[0], &w[1]) {
                Some(m) => Some(MoveType::Basic(m)),
                None => None,
            }
        } else if w.len() == 3 {
            let kw = str_to_chars("enpassant");
            if !crate::json::chars_eq(&w[0], &kw) {
                None
            } else {
                match Move::parse(&w[1], &w[2]) {
                    Some(m) => Some(MoveType::EnPassant(m)),
                    None => None,
                }
            }
        } else if w.len() == 4 {
            let kw = str_to_chars("promote");
            if !crate::json::chars_eq(&w[0], &kw) {
                None
            } else {
                match (Move::parse(&w[1], &w[2]), crate::games::chess::board::Piece::parse(&w[3])) {
                    (Some(m), Some(p)) => Some(MoveType::Promotion(m, p)),
                    _ => None,
                }
            }
        } else if w.len() == 5 {
            let kw = str_to_chars("castle");
            if !crate::json::chars_eq(&w[0], &kw) {
                None
            } else {
                match (Move::parse(&w[1], &w[2]), Move::parse(&w[3], &w[4])) {
                    (Some(k), Some(r)) => Some(MoveType::Castling(k, r)),
                    _ => None,
                }
            }
        } else {
            None
        }
    }
}

} // verus!
