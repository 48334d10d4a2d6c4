//! The royal game of Ur: token movement on the three-row board.
//!
//! Each of the two players races seven tokens along a fixed track;
//! the middle row is shared, rosette squares grant another roll, and
//! a token landing on an enemy token sends it back to the start.

use vstd::prelude::*;

verus! {

/// A token's place: not yet entered, on the board, or borne off.
#[derive(Copy, Clone, PartialEq, Eq, Structural, Debug)]
pub enum Position {
    Start(usize),
    Board(usize, usize),
    End(usize),
}

/// A token on the board: its owner and its index.
#[derive(Copy, Clone, PartialEq, Eq, Structural, Debug)]
pub struct Token {
    pub player: usize,
    pub index: usize,
}

impl DeepView for Position {
    type V = Position;

    open spec fn deep_view(&self) -> Position {
        *self
    }
}

impl DeepView for Token {
    type V = Token;

    open spec fn deep_view(&self) -> Token {
        *self
    }
}

/// One step along a player's track.
pub open spec fn spec_advance_once(pos: Option<Position>, player: usize) -> Option<Position> {
    match pos {
        None => None,
        Some(p) => match p {
            Position::End(q) => None,
            Position::Board(r, c) => {
                if (r == 0 || r == 2) && c == 0 {
                    Some(Position::Board(1, 0))
                } else if (r == 0 || r == 2) && c == 6 {
                    Some(Position::End(player))
                } else if r == 1 && c == 7 {
                    Some(Position::Board((player * 2) as usize, 7))
                } else if r == 1 {
                    Some(Position::Board(1, (c + 1) as usize))
                } else {
                    Some(Position::Board(r, (c - 1) as usize))
                }
            },
            Position::Start(q) => Some(Position::Board((q * 2) as usize, 3)),
        },
    }
}

/// `dist` steps along a player's track.
pub open spec fn spec_advance(pos: Position, dist: nat, player: usize) -> Option<Position>
    decreases dist,
{
    if dist == 0 {
        Some(pos)
    } else {
        spec_advance_once(spec_advance(pos, (dist - 1) as nat, player), player)
    }
}

/// A position names real squares.
pub open spec fn pos_wf(p: Position) -> bool {
    match p {
        Position::Start(q) => q < 2,
        Position::Board(r, c) => r < 3 && c < 8,
        Position::End(q) => q < 2,
    }
}

/// The board and the place of each of the fourteen tokens.
pub struct UrBoard {
    pub board: Vec<Vec<Option<Token>>>,
    pub position: Vec<Vec<Position>>,
}

impl UrBoard {
    /// The grid view.
    pub open spec fn grid(&self) -> Seq<Seq<Option<Token>>> {
        self.board.deep_view()
    }

    /// The token positions view.
    pub open spec fn places(&self) -> Seq<Seq<Position>> {
        self.position.deep_view()
    }

    /// A well-formed board: three rows of eight squares, seven
    /// tokens for each of the two players, every position on the
    /// board.
    pub open spec fn wf(&self) -> bool {
        &&& self.grid().len() == 3
        &&& forall|r: int| 0 <= r < 3 ==> (#[trigger] self.grid()[r]).len() == 8
        &&& self.places().len() == 2
        &&& forall|q: int| 0 <= q < 2 ==> (#[trigger] self.places()[q]).len() == 7
        &&& forall|q: int, t: int| 0 <= q < 2 && 0 <= t < 7 ==> pos_wf(#[trigger] self.places()[q][t])
    }

    /// An empty board with every token at its start.
    pub fn new() -> (r: UrBoard)
        ensures
            r.wf(),
            forall|q: int, t: int| 0 <= q < 2 && 0 <= t < 7
                ==> #[trigger] r.places()[q][t] == Position::Start(q as usize),
            forall|r2: int, c: int| 0 <= r2 < 3 && 0 <= c < 8 ==> #[trigger] r.grid()[r2][c] is None,
    {
        let mut board: Vec<Vec<Option<Token>>> = Vec::new();
        let mut r2: usize = 0;
        while r2 < 3
            invariant
                r2 <= 3,
                board.deep_view().len() == r2,
                forall|a: int| 0 <= a < r2 ==> (#[trigger] board.deep_view()[a]).len() == 8,
                forall|a: int, c: int| 0 <= a < r2 && 0 <= c < 8
                    ==> #[trigger] board.deep_view()[a][c] is None,
            decreases 3 - r2,
        {
            let mut row: Vec<Option<Token>> = Vec::new();
            let mut c: usize = 0;
            while c < 8
                invariant
                    c <= 8,
                    row@.len() == c,
                    forall|b: int| 0 <= b < c ==> #[trigger] row@[b] is None,
                decreases 8 - c,
            {
                row.push(None);
                c = c + 1;
            }
            let ghost prev = board.deep_view();
            let ghost rv = row@;
            board.push(row);
            proof {
                assert(board.deep_view() =~~= prev.push(rv));
            }
            r2 = r2 + 1;
        }
        let mut position: Vec<Vec<Position>> = Vec::new();
        let mut q: usize = 0;
        while q < 2
            invariant
                q <= 2,
                position.deep_view().len() == q,
                forall|a: int| 0 <= a < q ==> (#[trigger] position.deep_view()[a]).len() == 7,
                forall|a: int, t: int| 0 <= a < q && 0 <= t < 7
                    ==> #[trigger] position.deep_view()[a][t] == Position::Start(a as usize),
            decreases 2 - q,
        {
            let mut row: Vec<Position> = Vec::new();
            let mut t: usize = 0;
            while t < 7
                invariant
                    t <= 7,
                    q < 2,
                    row@.len() == t,
                    forall|b: int| 0 <= b < t ==> #[trigger] row@[b] == Position::Start(q),
                decreases 7 - t,
            {
                row.push(Position::Start(q));
                t = t + 1;
            }
            let ghost prev = position.deep_view();
            let ghost rv = row@;
            position.push(row);
            proof {
                assert(position.deep_view() =~~= prev.push(rv));
            }
            q = q + 1;
        }
        UrBoard { board, position }
    }

    /// One step along a player's track.
    pub fn advance_once(pos: Option<Position>, player: usize) -> (r: Option<Position>)
        requires
            player < 2,
            pos matches Some(p) ==> pos_wf(p),
        ensures
            r == spec_advance_once(pos, player),
            r matches Some(p) ==> pos_wf(p),
    {
        let p = match pos {
            Some(p) => p,
            None => {
                return None;
            },
        };
        match p {
            Position::End(_) => None,
            Position::Board(r2, c) => {
                if (r2 == 0 || r2 == 2) && c == 0 {
                    Some(Position::Board(1, 0))
                } else if (r2 == 0 || r2 == 2) && c == 6 {
                    Some(Position::End(player))
                } else if r2 == 1 && c == 7 {
                    Some(Position::Board(player * 2, 7))
                } else if r2 == 1 {
                    Some(Position::Board(1, c + 1))
                } else {
                    Some(Position::Board(r2, c - 1))
                }
            },
            Position::Start(q) => Some(Position::Board(q * 2, 3)),
        }
    }

    /// `dist` steps along a player's track.
    pub fn advance(pos: Position, dist: usize, player: usize) -> (r: Option<Position>)
        requires
            player < 2,
            pos_wf(pos),
        ensures
            r == spec_advance(pos, dist as nat, player),
            r matches Some(p) ==> pos_wf(p),
    {
        let mut cur: Option<Position> = Some(pos);
        let mut i: usize = 0;
        while i < dist
            invariant
                i <= dist,
                player < 2,
                cur == spec_advance(pos, i as nat, player),
                cur matches Some(p) ==> pos_wf(p),
            decreases dist - i,
    {
            cur = Self::advance_once(cur, player);
            i = i + 1;
        }
        cur
    }

    /// Where a token would land, or nothing if the move is
    /// impossible: past the end, onto an own token, or onto the
    /// protected central rosette.
    pub open spec fn spec_simulate(&self, player: usize, token: usize, dist: nat) -> Option<Position> {
        match spec_advance(self.places()[player as int][token as int], dist, player) {
            Some(p) => match p {
                Position::Start(_) => None,
                Position::Board(r, c) => match self.grid()[r as int][c as int] {
                    Some(t) => {
                        if t.player == player || (r == 1 && c == 3) {
                            None
                        } else {
                            Some(Position::Board(r, c))
                        }
                    },
                    None => Some(Position::Board(r, c)),
                },
                Position::End(q) => Some(Position::End(q)),
            },
            None => None,
        }
    }

    /// Where a token would land, if anywhere.
    pub fn simulate_move(&self, player: usize, token: usize, dist: usize) -> (r: Option<Position>)
        requires
            self.wf(),
            player < 2,
            token < 7,
        ensures
            r == self.spec_simulate(player, token, dist as nat),
            r matches Some(p) ==> pos_wf(p) && !(p is Start),
    {
        let pos = self.position[player][token];
        proof {
            assert(self.places()[player as int][token as int] == self.position@[player as int]@[token as int]);
        }
        match Self::advance(pos, dist, player) {
            Some(p) => match p {
                Position::Start(_) => None,
                Position::Board(r2, c) => {
                    proof {
                        assert(self.grid()[r2 as int] == self.board@[r2 as int]@);
                    }
                    match self.board[r2][c] {
                        Some(t) => {
                            if t.player == player || (r2 == 1 && c == 3) {
                                None
                            } else {
                                Some(Position::Board(r2, c))
                            }
                        },
                        None => Some(Position::Board(r2, c)),
                    }
                },
                Position::End(q) => Some(Position::End(q)),
            },
            None => None,
        }
    }

    /// The strictly increasing list of exactly those tokens the
    /// player can move by `dist`.
    pub fn valid_moves(&self, player: usize, dist: usize) -> (r: Vec<usize>)
        requires
            self.wf(),
            player < 2,
            dist <= 4,
        ensures
            forall|i: int| 0 <= i < r@.len()
                ==> r@[i] < 7 && self.spec_simulate(player, #[trigger] r@[i], dist as nat) is Some,
            forall|t: usize| t < 7 && self.spec_simulate(player, t, dist as nat) is Some
                ==> r@.contains(t),
            forall|i: int, j: int| 0 <= i < j < r@.len() ==> r@[i] < r@[j],
    {
        let mut r: Vec<usize> = Vec::new();
        let mut t: usize = 0;
        while t < 7
            invariant
                t <= 7,
                self.wf(),
                player < 2,
                forall|i: int| 0 <= i < r@.len()
                    ==> r@[i] < 7 && self.spec_simulate(player, #[trigger] r@[i], dist as nat) is Some,
                forall|tt: usize| tt < t && self.spec_simulate(player, tt, dist as nat) is Some
                    ==> r@.contains(tt),
                forall|i: int| 0 <= i < r@.len() ==> r@[i] < t,
                forall|i: int, j: int| 0 <= i < j < r@.len() ==> r@[i] < r@[j],
            decreases 7 - t,
        {
            let ghost prev = r@;
            if self.simulate_move(player, t, dist).is_some() {
                r.push(t);
                proof {
                    assert(r@ =~= prev.push(t));
                    assert forall|tt: usize| prev.contains(tt) implies r@.contains(tt) by {
                        let i = choose|i: int| 0 <= i < prev.len() && prev[i] == tt;
                        assert(r@[i] == tt);
                    }
                    assert(r@[prev.len() as int] == t);
                    assert(r@.contains(t));
                    assert forall|tt: usize| tt < t + 1
                        && self.spec_simulate(player, tt, dist as nat) is Some
                        implies r@.contains(tt) by {
                        if tt < t {
                            assert(prev.contains(tt));
                        } else {
                            assert(tt == t);
                        }
                    }
                }
            }
            t = t + 1;
        }
        r
    }

    /// A side has borne off all seven of its tokens.
    pub open spec fn player_done(&self, q: int) -> bool {
        forall|t: int| 0 <= t < 7 ==> (#[trigger] self.places()[q][t]) is End
    }

    /// A player has borne off all seven tokens.
    pub fn finished(&self) -> (r: bool)
        requires
            self.wf(),
        ensures
            r == exists|q: int| 0 <= q < 2 && #[trigger] self.player_done(q),
    {
        let mut q: usize = 0;
        while q < 2
            invariant
                q <= 2,
                self.wf(),
                forall|a: int| 0 <= a < q ==> !#[trigger] self.player_done(a),
            decreases 2 - q,
        {
            let mut all_end = true;
            let mut t: usize = 0;
            while t < 7
                invariant
                    t <= 7,
                    q < 2,
                    self.wf(),
                    all_end == (forall|b: int| 0 <= b < t ==> (#[trigger] self.places()[q as int][b]) is End),
                decreases 7 - t,
            {
                proof {
                    assert(self.places()[q as int][t as int] == self.position@[q as int]@[t as int]);
                }
                if !matches!(self.position[q][t], Position::End(_)) {
                    all_end = false;
                }
                t = t + 1;
            }
            if all_end {
                proof {
                    assert(self.player_done(q as int));
                }
                return true;
            }
            proof {
                assert(!self.player_done(q as int));
            }
            q = q + 1;
        }
        false
    }
}


/// A rosette square, granting another roll.
pub open spec fn is_rosette(r: usize, c: usize) -> bool {
    (r == 0 && c == 0) || (r == 2 && c == 0) || (r == 1 && c == 3)
        || (r == 0 && c == 6) || (r == 2 && c == 6)
}

impl UrBoard {
    /// Replaces one square of the grid.
    fn set_square(&mut self, r: usize, c: usize, v: Option<Token>)
        requires
            old(self).wf(),
            r < 3,
            c < 8,
        ensures
            final(self).wf(),
            final(self).places() == old(self).places(),
            final(self).grid() == old(self).grid().update(r as int,
                old(self).grid()[r as int].update(c as int, v)),
    {
        let ghost oldgrid = self.grid();
        let mut row = self.board.remove(r);
        proof {
            assert(row.deep_view() == oldgrid[r as int]);
            assert(row@.len() == row.deep_view().len());
        }
        row.set(c, v);
        let ghost rowv = row.deep_view();
        self.board.insert(r, row);
        proof {
            assert(rowv =~= oldgrid[r as int].update(c as int, v));
            assert(self.grid() =~~= oldgrid.update(r as int, rowv));
        }
    }

    /// Replaces one token's position.
    fn set_place(&mut self, q: usize, t: usize, p: Position)
        requires
            old(self).wf(),
            q < 2,
            t < 7,
            pos_wf(p),
        ensures
            final(self).wf(),
            final(self).grid() == old(self).grid(),
            final(self).places() == old(self).places().update(q as int,
                old(self).places()[q as int].update(t as int, p)),
    {
        let ghost oldplaces = self.places();
        let mut row = self.position.remove(q);
        proof {
            assert(row.deep_view() == oldplaces[q as int]);
            assert(row@.len() == row.deep_view().len());
        }
        row.set(t, p);
        let ghost rowv = row.deep_view();
        self.position.insert(q, row);
        proof {
            assert(rowv =~= oldplaces[q as int].update(t as int, p));
            assert(self.places() =~~= oldplaces.update(q as int, rowv));
        }
    }

    /// Moves a token by a roll.  A legal move succeeds: it lands the
    /// token, vacates its old square, returns a landed-on enemy
    /// token to its start, and grants another roll exactly on a
    /// rosette.  An impossible move leaves the board unchanged.
    #[verifier::rlimit(100)]
    pub fn make_move(&mut self, player: usize, token: usize, dist: usize) -> (r: Result<bool, ()>)
        requires
            old(self).wf(),
            player < 2,
            dist <= 4,
        ensures
            final(self).wf(),
            token >= 7 ==> r is Err && *final(self) == *old(self),
            token < 7 ==> match old(self).spec_simulate(player, token, dist as nat) {
                None => r is Err && *final(self) == *old(self),
                Some(dest) => match dest {
                    Position::End(q) => {
                        old(self).places()[player as int][token as int] matches Position::Board(br, bc)
                            ==> {
                                &&& r == Ok::<bool, ()>(false)
                                &&& final(self).places()[player as int][token as int] == dest
                                &&& final(self).grid()[br as int][bc as int] is None
                            }
                    },
                    Position::Board(row, col) => {
                        &&& r == Ok::<bool, ()>(is_rosette(row, col))
                        &&& final(self).places()[player as int][token as int] == dest
                        &&& final(self).grid()[row as int][col as int]
                            == Some(Token { player, index: token })
                        &&& (match old(self).grid()[row as int][col as int] {
                            Some(tok) => tok.player < 2 && tok.index < 7
                                ==> final(self).places()[tok.player as int][tok.index as int]
                                    == Position::Start(tok.player),
                            None => true,
                        })
                        &&& (match old(self).places()[player as int][token as int] {
                            Position::Board(br, bc) => !(br == row && bc == col)
                                ==> final(self).grid()[br as int][bc as int] is None,
                            _ => true,
                        })
                    },
                    Position::Start(_) => true,
                },
            },
    {
        if token >= 7 {
            return Err(());
        }
        let dest = match self.simulate_move(player, token, dist) {
            Some(d) => d,
            None => {
                return Err(());
            },
        };
        let from = self.position[player][token];
        proof {
            assert(self.places()[player as int][token as int]
                == self.position@[player as int]@[token as int]);
        }
        match dest {
            Position::End(q) => {
                match from {
                    Position::Board(br, bc) => {
                        self.set_square(br, bc, None);
                        self.set_place(player, token, dest);
                        Ok(false)
                    },
                    _ => Err(()),
                }
            },
            Position::Board(row, col) => {
                proof {
                    assert(self.grid()[row as int] == self.board@[row as int]@);
                }
                match self.board[row][col] {
                    Some(captured) => {
                        if captured.player < 2 && captured.index < 7 {
                            let cp = captured.player;
                            self.set_place(cp, captured.index, Position::Start(cp));
                        }
                    },
                    None => {},
                }
                match from {
                    Position::Board(br, bc) => {
                        self.set_square(br, bc, None);
                    },
                    _ => {},
                }
                self.set_square(row, col, Some(Token { player, index: token }));
                self.set_place(player, token, dest);
                let rosette = (row == 0 && col == 0) || (row == 2 && col == 0)
                    || (row == 1 && col == 3) || (row == 0 && col == 6) || (row == 2 && col == 6);
                Ok(rosette)
            },
            Position::Start(_) => Err(()),
        }
    }
}

} // verus!

