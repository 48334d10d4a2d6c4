//! The chess board and its move rules.
//!
//! Every rule check has a specification twin over the board's
//! mathematical view; the executable functions are proved equal to
//! their twins.  A board carries the list of moves played, which the
//! castling and en passant rules and the piece tracer consult.

use vstd::prelude::*;
use crate::games::chess::chess_move::{Move, MoveType, Point, move_in_bounds, move_type_in_bounds, point_in_bounds};
use crate::json::str_to_chars;

verus! {

/// The chess pieces.
#[derive(Copy, Clone, PartialEq, Eq, Structural, Debug)]
pub enum Piece {
    Pawn,
    Rook,
    Knight,
    Bishop,
    Queen,
    King,
}

/// The two sides.
#[derive(Copy, Clone, PartialEq, Eq, Structural, Debug)]
pub enum Color {
    White,
    Black,
}

impl Color {
    /// The opposing side.
    pub open spec fn spec_other(self) -> Color {
        match self {
            Color::White => Color::Black,
            Color::Black => Color::White,
        }
    }

    /// The opposing side.
    #[verifier::when_used_as_spec(spec_other)]
    pub fn other(self) -> (r: Color)
        ensures
            r == self.spec_other(),
    {
        match self {
            Color::White => Color::Black,
            Color::Black => Color::White,
        }
    }
}

/// One square: empty or a piece of a side.
#[derive(Copy, Clone, PartialEq, Eq, Structural, Debug)]
pub enum Tile {
    Empty,
    Piece(Piece, Color),
}

impl DeepView for Tile {
    type V = Tile;

    open spec fn deep_view(&self) -> Tile {
        *self
    }
}

/// Parses a piece name.
pub open spec fn spec_parse_piece(s: Seq<char>) -> Option<Piece> {
    if s == "pawn"@ {
        Some(Piece::Pawn)
    } else if s == "rook"@ {
        Some(Piece::Rook)
    } else if s == "knight"@ {
        Some(Piece::Knight)
    } else if s == "bishop"@ {
        Some(Piece::Bishop)
    } else if s == "queen"@ {
        Some(Piece::Queen)
    } else if s == "king"@ {
        Some(Piece::King)
    } else {
        None
    }
}

impl Piece {
    /// Parses a piece name.
    pub fn parse(input: &Vec<char>) -> (r: Option<Piece>)
        ensures
            r == spec_parse_piece(input@),
    {
        let kw = str_to_chars("pawn");
        if crate::json::chars_eq(input, &kw) {
            return Some(Piece::Pawn);
        }
        let kw = str_to_chars("rook");
        if crate::json::chars_eq(input, &kw) {
            return Some(Piece::Rook);
        }
        let kw = str_to_chars("knight");
        if crate::json::chars_eq(input, &kw) {
            return Some(Piece::Knight);
        }
        let kw = str_to_chars("bishop");
        if crate::json::chars_eq(input, &kw) {
            return Some(Piece::Bishop);
        }
        let kw = str_to_chars("queen");
        if crate::json::chars_eq(input, &kw) {
            return Some(Piece::Queen);
        }
        let kw = str_to_chars("king");
        if crate::json::chars_eq(input, &kw) {
            return Some(Piece::King);
        }
        None
    }
}

/// The display text of a square.
pub open spec fn spec_display(t: Tile) -> Seq<char> {
    match t {
        Tile::Empty => "  "@,
        Tile::Piece(Piece::Pawn, Color::White) => " P"@,
        Tile::Piece(Piece::Rook, Color::White) => " R"@,
        Tile::Piece(Piece::Knight, Color::White) => " N"@,
        Tile::Piece(Piece::Bishop, Color::White) => " B"@,
        Tile::Piece(Piece::Queen, Color::White) => " Q"@,
        Tile::Piece(Piece::King, Color::White) => " K"@,
        Tile::Piece(Piece::Pawn, Color::Black) => " p"@,
        Tile::Piece(Piece::Rook, Color::Black) => " r"@,
        Tile::Piece(Piece::Knight, Color::Black) => " n"@,
        Tile::Piece(Piece::Bishop, Color::Black) => " b"@,
        Tile::Piece(Piece::Queen, Color::Black) => " q"@,
        Tile::Piece(Piece::King, Color::Black) => " k"@,
    }
}

impl Tile {
    /// The display text of this square.
    pub fn display(&self) -> (r: &'static str)
        ensures
            r@ == spec_display(*self),
    {
        match *self {
            Tile::Empty => "  ",
            Tile::Piece(Piece::Pawn, Color::White) => " P",
            Tile::Piece(Piece::Rook, Color::White) => " R",
            Tile::Piece(Piece::Knight, Color::White) => " N",
            Tile::Piece(Piece::Bishop, Color::White) => " B",
            Tile::Piece(Piece::Queen, Color::White) => " Q",
            Tile::Piece(Piece::King, Color::White) => " K",
            Tile::Piece(Piece::Pawn, Color::Black) => " p",
            Tile::Piece(Piece::Rook, Color::Black) => " r",
            Tile::Piece(Piece::Knight, Color::Black) => " n",
            Tile::Piece(Piece::Bishop, Color::Black) => " b",
            Tile::Piece(Piece::Queen, Color::Black) => " q",
            Tile::Piece(Piece::King, Color::Black) => " k",
        }
    }

    /// The side of the piece on this square, if any.
    pub open spec fn spec_color(self) -> Option<Color> {
        match self {
            Tile::Piece(_, c) => Some(c),
            Tile::Empty => None,
        }
    }

    /// The side of the piece on this square, if any.
    pub fn color(&self) -> (r: Option<Color>)
        ensures
            r == self.spec_color(),
    {
        match *self {
            Tile::Piece(_, c) => Some(c),
            Tile::Empty => None,
        }
    }
}

/// An 8 by 8 grid of squares.
pub open spec fn grid_wf(b: Seq<Seq<Tile>>) -> bool {
    b.len() == 8 && forall|i: int| 0 <= i < 8 ==> (#[trigger] b[i]).len() == 8
}

/// The square of a grid at a point.
pub open spec fn at(b: Seq<Seq<Tile>>, p: Point) -> Tile {
    b[p.y as int][p.x as int]
}

/// The grid with one square replaced.
pub open spec fn put(b: Seq<Seq<Tile>>, p: Point, t: Tile) -> Seq<Seq<Tile>> {
    b.update(p.y as int, b[p.y as int].update(p.x as int, t))
}

/// The board of a new game.
pub open spec fn initial_grid() -> Seq<Seq<Tile>> {
    seq![
        seq![
            Tile::Piece(Piece::Rook, Color::White),
            Tile::Piece(Piece::Knight, Color::White),
            Tile::Piece(Piece::Bishop, Color::White),
            Tile::Piece(Piece::Queen, Color::White),
            Tile::Piece(Piece::King, Color::White),
            Tile::Piece(Piece::Bishop, Color::White),
            Tile::Piece(Piece::Knight, Color::White),
            Tile::Piece(Piece::Rook, Color::White),
        ],
        Seq::new(8, |i: int| Tile::Piece(Piece::Pawn, Color::White)),
        Seq::new(8, |i: int| Tile::Empty),
        Seq::new(8, |i: int| Tile::Empty),
        Seq::new(8, |i: int| Tile::Empty),
        Seq::new(8, |i: int| Tile::Empty),
        Seq::new(8, |i: int| Tile::Piece(Piece::Pawn, Color::Black)),
        seq![
            Tile::Piece(Piece::Rook, Color::Black),
            Tile::Piece(Piece::Knight, Color::Black),
            Tile::Piece(Piece::Bishop, Color::Black),
            Tile::Piece(Piece::Queen, Color::Black),
            Tile::Piece(Piece::King, Color::Black),
            Tile::Piece(Piece::Bishop, Color::Black),
            Tile::Piece(Piece::Knight, Color::Black),
            Tile::Piece(Piece::Rook, Color::Black),
        ],
    ]
}

/// The chess board together with the moves played on it.
pub struct ChessBoard {
    pub board: Vec<Vec<Tile>>,
    pub moves: Vec<Move>,
}

impl ChessBoard {
    /// The board's grid view.
    pub open spec fn grid(&self) -> Seq<Seq<Tile>> {
        self.board.deep_view()
    }

    /// The played moves.
    pub open spec fn played(&self) -> Seq<Move> {
        self.moves@
    }

    /// A well-formed board: an 8 by 8 grid, every recorded move on
    /// the board.
    pub open spec fn wf(&self) -> bool {
        &&& grid_wf(self.grid())
        &&& forall|i: int| 0 <= i < self.played().len() ==> move_in_bounds(#[trigger] self.played()[i])
    }
}

/// A rank of eight equal squares.
fn filled_row(t: Tile) -> (r: Vec<Tile>)
    ensures
        r@.len() == 8,
        forall|i: int| 0 <= i < 8 ==> r@[i] == t,
{
    let mut r: Vec<Tile> = Vec::new();
    r.push(t);
    r.push(t);
    r.push(t);
    r.push(t);
    r.push(t);
    r.push(t);
    r.push(t);
    r.push(t);
    r
}

/// The back rank of a side.
fn back_row(c: Color) -> (r: Vec<Tile>)
    ensures
        r@ =~= seq![
            Tile::Piece(Piece::Rook, c),
            Tile::Piece(Piece::Knight, c),
            Tile::Piece(Piece::Bishop, c),
            Tile::Piece(Piece::Queen, c),
            Tile::Piece(Piece::King, c),
            Tile::Piece(Piece::Bishop, c),
            Tile::Piece(Piece::Knight, c),
            Tile::Piece(Piece::Rook, c),
        ],
{
    let mut r: Vec<Tile> = Vec::new();
    r.push(Tile::Piece(Piece::Rook, c));
    r.push(Tile::Piece(Piece::Knight, c));
    r.push(Tile::Piece(Piece::Bishop, c));
    r.push(Tile::Piece(Piece::Queen, c));
    r.push(Tile::Piece(Piece::King, c));
    r.push(Tile::Piece(Piece::Bishop, c));
    r.push(Tile::Piece(Piece::Knight, c));
    r.push(Tile::Piece(Piece::Rook, c));
    r
}

impl ChessBoard {
    /// A board with the starting position and no moves played.
    pub fn new() -> (r: ChessBoard)
        ensures
            r.wf(),
            r.grid() =~~= initial_grid(),
            r.played().len() == 0,
    {
        let mut board: Vec<Vec<Tile>> = Vec::new();
        board.push(back_row(Color::White));
        board.push(filled_row(Tile::Piece(Piece::Pawn, Color::White)));
        board.push(filled_row(Tile::Empty));
        board.push(filled_row(Tile::Empty));
        board.push(filled_row(Tile::Empty));
        board.push(filled_row(Tile::Empty));
        board.push(filled_row(Tile::Piece(Piece::Pawn, Color::Black)));
        board.push(back_row(Color::Black));
        let r = ChessBoard { board, moves: Vec::new() };
        proof {
            assert(r.grid().len() == 8);
            assert(forall|i: int| 0 <= i < 8 ==> r.grid()[i] == r.board@[i].deep_view());
            assert(forall|i: int| 0 <= i < 8 ==> (#[trigger] r.grid()[i]).len() == 8) by {
                assert(forall|i: int, j: int| 0 <= i < 8 && 0 <= j < r.board@[i]@.len()
                    ==> #[trigger] r.board@[i].deep_view()[j] == r.board@[i]@[j]);
            }
            assert(r.grid() =~~= initial_grid()) by {
                assert(forall|i: int, j: int| 0 <= i < 8 && 0 <= j < 8
                    ==> #[trigger] r.grid()[i][j] == r.board@[i]@[j]);
            }
        }
        r
    }

    /// The square at a point.
    pub fn tile_at(&self, p: Point) -> (r: Tile)
        requires
            self.wf(),
            point_in_bounds(p),
        ensures
            r == at(self.grid(), p),
    {
        let r = self.board[p.y][p.x];
        proof {
            assert(self.grid()[p.y as int] == self.board@[p.y as int].deep_view());
            assert(self.board@[p.y as int].deep_view()[p.x as int] == self.board@[p.y as int]@[p.x as int]);
        }
        r
    }

    /// The board with one square replaced; the move list is kept.
    pub fn set_tile(&self, p: Point, t: Tile) -> (r: ChessBoard)
        requires
            self.wf(),
            point_in_bounds(p),
        ensures
            r.wf(),
            r.grid() == put(self.grid(), p, t),
            r.played() == self.played(),
    {
        let mut nb = self.clone_board();
        proof {
            assert(nb.grid()[p.y as int].len() == 8);
            assert(nb.grid()[p.y as int] == nb.board@[p.y as int]@);
        }
        let mut row: Vec<Tile> = Vec::new();
        let mut j: usize = 0;
        while j < 8
            invariant
                j <= 8,
                point_in_bounds(p),
                nb.board@.len() == 8,
                nb.board@[p.y as int]@.len() == 8,
                row@ =~= nb.board@[p.y as int]@.update(p.x as int, t).take(j as int),
            decreases 8 - j,
        {
            if j == p.x {
                row.push(t);
            } else {
                row.push(nb.board[p.y][j]);
            }
            proof {
                let target = nb.board@[p.y as int]@.update(p.x as int, t);
                assert(target.take(j + 1 as int) =~= target.take(j as int).push(target[j as int]));
            }
            j = j + 1;
        }
        let ghost oldgrid = nb.grid();
        let ghost oldboard = nb.board@;
        let ghost rowv = row@;
        nb.board.set(p.y, row);
        proof {
            assert(rowv =~= oldboard[p.y as int]@.update(p.x as int, t));
            assert(nb.board@ == oldboard.update(p.y as int, nb.board@[p.y as int]));
            assert(nb.grid() =~~= put(self.grid(), p, t)) by {
                assert(forall|i: int| 0 <= i < 8 ==> #[trigger] nb.grid()[i] == nb.board@[i]@);
                assert(forall|i: int| 0 <= i < 8 && i != p.y as int
                    ==> #[trigger] nb.board@[i]@ == oldboard[i]@);
                assert(forall|i: int| 0 <= i < 8 ==> #[trigger] oldgrid[i] == oldboard[i]@);
                assert(oldgrid == put(self.grid(), p, t).update(p.y as int, oldgrid[p.y as int])
                    ==> true);
                assert(forall|i: int| 0 <= i < 8 && i != p.y as int
                    ==> #[trigger] put(self.grid(), p, t)[i] == self.grid()[i]);
                assert(put(self.grid(), p, t)[p.y as int]
                    == self.grid()[p.y as int].update(p.x as int, t));
                assert(nb.board@[p.y as int]@ == rowv);
                assert(self.grid()[p.y as int] == oldboard[p.y as int]@);
            }
            assert(grid_wf(nb.grid()));
        }
        nb
    }

    /// A structural copy of the board.
    pub fn clone_board(&self) -> (r: ChessBoard)
        requires
            self.wf(),
        ensures
            r.wf(),
            r.grid() == self.grid(),
            r.played() == self.played(),
    {
        let mut board: Vec<Vec<Tile>> = Vec::new();
        let mut i: usize = 0;
        while i < self.board.len()
            invariant
                i <= self.board@.len(),
                board.deep_view() =~= self.board.deep_view().take(i as int),
            decreases self.board@.len() - i,
        {
            let mut row: Vec<Tile> = Vec::new();
            let mut j: usize = 0;
            while j < self.board[i].len()
                invariant
                    i < self.board@.len(),
                    j <= self.board@[i as int]@.len(),
                    row@ =~= self.board@[i as int]@.take(j as int),
                decreases self.board@[i as int]@.len() - j,
            {
                row.push(self.board[i][j]);
                proof {
                    assert(self.board@[i as int]@.take(j + 1 as int)
                        =~= self.board@[i as int]@.take(j as int).push(self.board@[i as int]@[j as int]));
                }
                j = j + 1;
            }
            proof {
                assert(self.board@[i as int]@.take(self.board@[i as int]@.len() as int)
                    =~= self.board@[i as int]@);
            }
            let ghost prev = board.deep_view();
            let ghost rv = row@;
            board.push(row);
            proof {
                assert(board.deep_view() =~~= prev.push(rv));
                assert(self.board.deep_view()[i as int] == self.board@[i as int]@);
                assert(board.deep_view() =~= self.board.deep_view().take(i + 1 as int));
            }
            i = i + 1;
        }
        proof {
            assert(self.board.deep_view().take(self.board@.len() as int) =~= self.board.deep_view());
        }
        let mut moves: Vec<Move> = Vec::new();
        let mut i: usize = 0;
        while i < self.moves.len()
            invariant
                i <= self.moves@.len(),
                moves@ =~= self.moves@.take(i as int),
            decreases self.moves@.len() - i,
        {
            moves.push(self.moves[i]);
            proof {
                assert(self.moves@.take(i + 1 as int) =~= self.moves@.take(i as int).push(self.moves@[i as int]));
            }
            i = i + 1;
        }
        proof {
            assert(self.moves@.take(self.moves@.len() as int) =~= self.moves@);
        }
        let r = ChessBoard { board, moves };
        proof {
            assert(r.grid() == self.grid());
            assert(r.played() == self.played());
            assert(r.wf());
        }
        r
    }
}

/// The grid after a plain move: the destination takes the source's
/// piece and the source becomes empty.
pub open spec fn grid_after_move(b: Seq<Seq<Tile>>, m: Move) -> Seq<Seq<Tile>> {
    put(put(b, m.to, at(b, m.from)), m.from, Tile::Empty)
}

impl ChessBoard {
    /// Applies a plain move and records it.
    pub fn apply_move(&self, m: Move) -> (r: ChessBoard)
        requires
            self.wf(),
            move_in_bounds(m),
        ensures
            r.wf(),
            r.grid() == grid_after_move(self.grid(), m),
            r.played() == self.played().push(m),
    {
        let t = self.tile_at(m.from);
        let step = self.set_tile(m.to, t);
        let mut r = step.set_tile(m.from, Tile::Empty);
        r.moves.push(m);
        r
    }
}


// ---------------------------------------------------------------------
// Move rules
// ---------------------------------------------------------------------

/// A pawn move, with `promo` set while checking a promotion.
pub open spec fn spec_pawn_move(b: Seq<Seq<Tile>>, m: Move, c: Color, promo: bool) -> bool {
    let fx = m.from.x as int;
    let fy = m.from.y as int;
    let tx = m.to.x as int;
    let ty = m.to.y as int;
    match c {
        Color::White => (match at(b, m.to) {
            Tile::Empty => fx == tx && (fy == ty - 1 || (fy == 1 && ty == 3)),
            _ => fy == ty - 1 && (fx == tx - 1 || fx == tx + 1),
        }) && (ty != 7 || promo || at(b, m.to) == Tile::Piece(Piece::King, Color::Black)),
        Color::Black => (match at(b, m.to) {
            Tile::Empty => fx == tx && (fy == ty + 1 || (fy == 6 && ty == 4)),
            _ => fy == ty + 1 && (fx == tx - 1 || fx == tx + 1),
        }) && (ty != 0 || promo || at(b, m.to) == Tile::Piece(Piece::King, Color::White)),
    }
}

/// A rook move: along a rank or file with the squares between empty.
pub open spec fn spec_rook_move(b: Seq<Seq<Tile>>, m: Move) -> bool {
    let fx = m.from.x as int;
    let fy = m.from.y as int;
    let tx = m.to.x as int;
    let ty = m.to.y as int;
    (fx == tx && (forall|y: int|
        (if fy < ty { fy } else { ty }) < y < (if fy < ty { ty } else { fy })
            ==> b[y][tx] == Tile::Empty))
    || (fy == ty && (forall|x: int|
        (if fx < tx { fx } else { tx }) < x < (if fx < tx { tx } else { fx })
            ==> b[ty][x] == Tile::Empty))
}

/// A knight move.
pub open spec fn spec_knight_move(m: Move) -> bool {
    let dx = m.from.x as int - m.to.x as int;
    let dy = m.from.y as int - m.to.y as int;
    ((dx == 2 || dx == -2) && (dy == 1 || dy == -1))
    || ((dx == 1 || dx == -1) && (dy == 2 || dy == -2))
}

/// The step direction of a coordinate difference.
pub open spec fn spec_sign(d: int) -> int {
    if d >= 0 { 1 } else { -1 }
}

/// A bishop move: along a diagonal with the squares between empty.
pub open spec fn spec_bishop_move(b: Seq<Seq<Tile>>, m: Move) -> bool {
    let dx = m.to.x as int - m.from.x as int;
    let dy = m.to.y as int - m.from.y as int;
    let adx = if dx >= 0 { dx } else { -dx };
    let ady = if dy >= 0 { dy } else { -dy };
    adx == ady && (forall|k: int| 1 <= k < adx
        ==> #[trigger] b[m.from.y + k * spec_sign(dy)][m.from.x + k * spec_sign(dx)] == Tile::Empty)
}

/// A king move.
pub open spec fn spec_king_move(m: Move) -> bool {
    let dx = m.from.x as int - m.to.x as int;
    let dy = m.from.y as int - m.to.y as int;
    -1 <= dx <= 1 && -1 <= dy <= 1
}

/// The piece-specific movement rule.
pub open spec fn spec_piece_move(b: Seq<Seq<Tile>>, p: Piece, m: Move, c: Color) -> bool {
    match p {
        Piece::Pawn => spec_pawn_move(b, m, c, false),
        Piece::Rook => spec_rook_move(b, m),
        Piece::Knight => spec_knight_move(m),
        Piece::Bishop => spec_bishop_move(b, m),
        Piece::Queen => spec_rook_move(b, m) || spec_bishop_move(b, m),
        Piece::King => spec_king_move(m),
    }
}

/// A basic move of a side: its own piece moves by its rule onto an
/// empty or enemy square.
pub open spec fn spec_basic_move(b: Seq<Seq<Tile>>, m: Move, c: Color) -> bool {
    match at(b, m.from) {
        Tile::Empty => false,
        Tile::Piece(p, pc) => pc == c && (match at(b, m.to) {
            Tile::Empty => true,
            Tile::Piece(_, c2) => c2 != c,
        }) && spec_piece_move(b, p, m, pc),
    }
}

/// No recorded move has touched a square.
pub open spec fn spec_no_moves(ms: Seq<Move>, p: Point) -> bool {
    forall|i: int| 0 <= i < ms.len() ==> (#[trigger] ms[i]).from != p && ms[i].to != p
}

/// Follows the recorded moves from a starting square: where the
/// piece that began there stands now, or nothing if it was captured.
pub open spec fn spec_traced(ms: Seq<Move>, p: Point) -> Option<Point>
    decreases ms.len(),
{
    if ms.len() == 0 {
        Some(p)
    } else if ms[0].from == p {
        spec_traced(ms.drop_first(), ms[0].to)
    } else if ms[0].to == p {
        None
    } else {
        spec_traced(ms.drop_first(), p)
    }
}

/// The starting square of a side's king.
pub open spec fn king_start(c: Color) -> Point {
    match c {
        Color::White => Point { x: 4, y: 0 },
        Color::Black => Point { x: 4, y: 7 },
    }
}

/// The two home ranks of a side.
pub open spec fn home_rank(c: Color, y: int) -> bool {
    match c {
        Color::White => 0 <= y < 2,
        Color::Black => 6 <= y < 8,
    }
}

/// The king of a side is under attack: some piece of the other side
/// that started on its home ranks can capture the king's current
/// square with a basic move.  A king that cannot be traced counts as
/// attacked.
pub open spec fn spec_king_check(b: Seq<Seq<Tile>>, ms: Seq<Move>, c: Color) -> bool {
    match spec_traced(ms, king_start(c)) {
        None => true,
        Some(k) => exists|x: usize, y: usize|
            x < 8 && home_rank(c.spec_other(), y as int)
            && (match #[trigger] spec_traced(ms, Point { x: x, y: y }) {
                Some(p) => spec_basic_move(b, Move { from: p, to: k }, c.spec_other()),
                None => false,
            }),
    }
}

/// An en passant capture, judged against the latest recorded move.
pub open spec fn spec_enpassant(b: Seq<Seq<Tile>>, ms: Seq<Move>, m: Move, c: Color) -> bool {
    let fx = m.from.x as int;
    let fy = m.from.y as int;
    let tx = m.to.x as int;
    let ty = m.to.y as int;
    at(b, m.from) == Tile::Piece(Piece::Pawn, c) && at(b, m.to) == Tile::Empty
    && ms.len() > 0
    && match c {
        Color::White => (fx == tx - 1 || fx == tx + 1) && fy == 4 && ty == 5
            && ms.last() == (Move {
                from: Point { x: m.to.x, y: 6 },
                to: Point { x: m.to.x, y: 4 },
            }),
        Color::Black => (fx == tx - 1 || fx == tx + 1) && fy == 3 && ty == 2
            && ms.last() == (Move {
                from: Point { x: m.to.x, y: 1 },
                to: Point { x: m.to.x, y: 3 },
            }),
    }
}

/// A promotion: a pawn makes a final-rank pawn move and names a
/// replacement piece.
pub open spec fn spec_promotion(b: Seq<Seq<Tile>>, m: Move, c: Color, p: Piece) -> bool {
    at(b, m.from) == Tile::Piece(Piece::Pawn, c) && (match p {
        Piece::Rook | Piece::Knight | Piece::Bishop | Piece::Queen => true,
        _ => false,
    }) && spec_pawn_move(b, m, c, true)
}

/// The square the king crosses while castling.
pub open spec fn castle_mid(k: Move) -> Point {
    let fx = k.from.x as int;
    let tx = k.to.x as int;
    let mid = if tx >= fx { fx + (tx - fx) / 2 } else { fx - (fx - tx) / 2 };
    Point { x: mid as usize, y: k.to.y }
}

/// The grid and move list after one plain move.
pub open spec fn state_after_move(b: Seq<Seq<Tile>>, ms: Seq<Move>, m: Move) -> (Seq<Seq<Tile>>, Seq<Move>) {
    (grid_after_move(b, m), ms.push(m))
}

/// The grid and move list after a full move of any kind.
pub open spec fn spec_apply_move_type(b: Seq<Seq<Tile>>, ms: Seq<Move>, t: MoveType) -> (Seq<Seq<Tile>>, Seq<Move>) {
    match t {
        MoveType::Basic(m) => state_after_move(b, ms, m),
        MoveType::EnPassant(m) => {
            let hop = Move { from: m.from, to: Point { x: m.to.x, y: m.from.y } };
            let s1 = state_after_move(b, ms, hop);
            state_after_move(s1.0, s1.1, Move { from: Point { x: m.to.x, y: m.from.y }, to: m.to })
        },
        MoveType::Promotion(m, p) => {
            let s1 = state_after_move(b, ms, m);
            (put(s1.0, m.to, Tile::Piece(p, at(b, m.from).spec_color()->Some_0)), s1.1)
        },
        MoveType::Castling(k, r) => {
            let s1 = state_after_move(b, ms, k);
            state_after_move(s1.0, s1.1, r)
        },
    }
}

/// A castling move: unmoved king and rook, the right target files, a
/// clear rook path, and no square the king touches under attack.
pub open spec fn spec_castling(b: Seq<Seq<Tile>>, ms: Seq<Move>, k: Move, r: Move, c: Color) -> bool {
    at(b, k.from) == Tile::Piece(Piece::King, c)
    && at(b, r.from) == Tile::Piece(Piece::Rook, c)
    && spec_no_moves(ms, k.from) && spec_no_moves(ms, r.from)
    && ((r.to.x == 3 && k.to.x == 2) || (r.to.x == 5 && k.to.x == 6))
    && k.to.y == k.from.y
    && spec_rook_move(b, r)
    && !spec_king_check(b, ms, c)
    && {
        let half = Move { from: k.from, to: castle_mid(k) };
        let s1 = state_after_move(b, ms, half);
        !spec_king_check(s1.0, s1.1, c)
    }
    && {
        let s2 = spec_apply_move_type(b, ms, MoveType::Basic(k));
        !spec_king_check(s2.0, s2.1, c)
    }
}

/// The per-kind rule of a submitted move.
pub open spec fn spec_kind_ok(b: Seq<Seq<Tile>>, ms: Seq<Move>, t: MoveType, c: Color) -> bool {
    match t {
        MoveType::Basic(m) => spec_basic_move(b, m, c),
        MoveType::EnPassant(m) => spec_enpassant(b, ms, m, c),
        MoveType::Promotion(m, p) => spec_promotion(b, m, c, p),
        MoveType::Castling(k, r) => spec_castling(b, ms, k, r, c),
    }
}

/// A submitted move is legal: it parses, passes its kind's rule, and
/// does not leave the mover's own king in check.
pub open spec fn spec_check_move(b: Seq<Seq<Tile>>, ms: Seq<Move>, opt: Option<MoveType>, c: Color) -> bool {
    match opt {
        None => false,
        Some(t) => spec_kind_ok(b, ms, t, c) && {
            let s = spec_apply_move_type(b, ms, t);
            !spec_king_check(s.0, s.1, c)
        },
    }
}

/// A piece has no legal basic move to any square.
pub open spec fn spec_no_legal_basic(b: Seq<Seq<Tile>>, ms: Seq<Move>, p: Point, c: Color) -> bool {
    forall|x: usize, y: usize| x < 8 && y < 8
        ==> !#[trigger] spec_check_move(b, ms, Some(MoveType::Basic(Move {
            from: p,
            to: Point { x: x, y: y },
        })), c)
}

/// Checkmate: every piece of the side that started on its home ranks
/// and survives has no legal basic move.
pub open spec fn spec_king_mate(b: Seq<Seq<Tile>>, ms: Seq<Move>, c: Color) -> bool {
    forall|x0: usize, y0: usize| x0 < 8 && home_rank(c, y0 as int)
        ==> (match #[trigger] spec_traced(ms, Point { x: x0, y: y0 }) {
            Some(p) => spec_no_legal_basic(b, ms, p, c),
            None => true,
        })
}


impl ChessBoard {
    /// Checks a pawn move.
    fn check_pawn_move(&self, m: Move, c: Color, promo: bool) -> (r: bool)
        requires
            self.wf(),
            move_in_bounds(m),
        ensures
            r == spec_pawn_move(self.grid(), m, c, promo),
    {
        let target = self.tile_at(m.to);
        match c {
            Color::White => {
                let step = match target {
                    Tile::Empty => m.from.x == m.to.x
                        && ((m.to.y >= 1 && m.from.y == m.to.y - 1) || (m.from.y == 1 && m.to.y == 3)),
                    _ => (m.to.y >= 1 && m.from.y == m.to.y - 1)
                        && ((m.to.x >= 1 && m.from.x == m.to.x - 1) || m.from.x == m.to.x + 1),
                };
                step && (m.to.y != 7 || promo || target == Tile::Piece(Piece::King, Color::Black))
            },
            Color::Black => {
                let step = match target {
                    Tile::Empty => m.from.x == m.to.x
                        && (m.from.y == m.to.y + 1 || (m.from.y == 6 && m.to.y == 4)),
                    _ => m.from.y == m.to.y + 1
                        && ((m.to.x >= 1 && m.from.x == m.to.x - 1) || m.from.x == m.to.x + 1),
                };
                step && (m.to.y != 0 || promo || target == Tile::Piece(Piece::King, Color::White))
            },
        }
    }

    /// Checks a rook move.
    fn check_rook_move(&self, m: Move) -> (r: bool)
        requires
            self.wf(),
            move_in_bounds(m),
        ensures
            r == spec_rook_move(self.grid(), m),
    {
        let mut file_ok = false;
        if m.from.x == m.to.x {
            let lo = if m.from.y < m.to.y { m.from.y } else { m.to.y };
            let hi = if m.from.y < m.to.y { m.to.y } else { m.from.y };
            let mut y = lo + 1;
            let mut clear = true;
            while y < hi
                invariant
                    self.wf(),
                    move_in_bounds(m),
                    lo < y <= hi || (lo + 1 > hi && y == lo + 1),
                    hi < 8,
                    clear == (forall|yy: int| lo < yy < y ==> self.grid()[yy][m.to.x as int] == Tile::Empty),
                decreases hi - y,
            {
                if self.tile_at(Point { x: m.to.x, y }) != Tile::Empty {
                    clear = false;
                }
                y = y + 1;
            }
            file_ok = clear;
            proof {
                if lo + 1 > hi {
                    assert(forall|yy: int| lo < yy < hi ==> self.grid()[yy][m.to.x as int] == Tile::Empty);
                }
            }
        }
        let mut rank_ok = false;
        if m.from.y == m.to.y {
            let lo = if m.from.x < m.to.x { m.from.x } else { m.to.x };
            let hi = if m.from.x < m.to.x { m.to.x } else { m.from.x };
            let mut x = lo + 1;
            let mut clear = true;
            while x < hi
                invariant
                    self.wf(),
                    move_in_bounds(m),
                    lo < x <= hi || (lo + 1 > hi && x == lo + 1),
                    hi < 8,
                    clear == (forall|xx: int| lo < xx < x ==> self.grid()[m.to.y as int][xx] == Tile::Empty),
                decreases hi - x,
            {
                if self.tile_at(Point { x, y: m.to.y }) != Tile::Empty {
                    clear = false;
                }
                x = x + 1;
            }
            rank_ok = clear;
            proof {
                if lo + 1 > hi {
                    assert(forall|xx: int| lo < xx < hi ==> self.grid()[m.to.y as int][xx] == Tile::Empty);
                }
            }
        }
        file_ok || rank_ok
    }

    /// Checks a knight move.
    fn check_knight_move(&self, m: Move) -> (r: bool)
        requires
            move_in_bounds(m),
        ensures
            r == spec_knight_move(m),
    {
        let fx = m.from.x as i64;
        let fy = m.from.y as i64;
        let tx = m.to.x as i64;
        let ty = m.to.y as i64;
        let dx = fx - tx;
        let dy = fy - ty;
        ((dx == 2 || dx == -2) && (dy == 1 || dy == -1))
            || ((dx == 1 || dx == -1) && (dy == 2 || dy == -2))
    }

    /// Checks a bishop move.
    fn check_bishop_move(&self, m: Move) -> (r: bool)
        requires
            self.wf(),
            move_in_bounds(m),
        ensures
            r == spec_bishop_move(self.grid(), m),
    {
        let fx = m.from.x as i64;
        let fy = m.from.y as i64;
        let tx = m.to.x as i64;
        let ty = m.to.y as i64;
        let dx = tx - fx;
        let dy = ty - fy;
        let adx = if dx >= 0 { dx } else { -dx };
        let ady = if dy >= 0 { dy } else { -dy };
        if adx != ady {
            return false;
        }
        let right = dx >= 0;
        let up = dy >= 0;
        let mut k: u64 = 1;
        let mut clear = true;
        while (k as i64) < adx
            invariant
                self.wf(),
                move_in_bounds(m),
                fx == m.from.x as int && fy == m.from.y as int,
                tx == m.to.x as int && ty == m.to.y as int,
                dx == tx - fx && dy == ty - fy,
                adx == (if dx >= 0 { dx as int } else { -dx as int }),
                adx == (if dy >= 0 { dy as int } else { -dy as int }),
                adx < 8,
                right == (dx >= 0) && up == (dy >= 0),
                1 <= k,
                k as int <= adx || (adx < 1 && k == 1),
                clear == (forall|kk: int| 1 <= kk < k
                    ==> #[trigger] self.grid()[m.from.y + kk * (spec_sign(dy as int))][m.from.x + kk * (spec_sign(dx as int))] == Tile::Empty),
            decreases adx - k,
        {
            let x = if right { m.from.x + (k as usize) } else { m.from.x - (k as usize) };
            let y = if up { m.from.y + (k as usize) } else { m.from.y - (k as usize) };
            proof {
                if right {
                    assert(spec_sign(dx as int) == 1);
                    assert(k * spec_sign(dx as int) == k as int) by (nonlinear_arith)
                        requires spec_sign(dx as int) == 1,
                    {}
                } else {
                    assert(spec_sign(dx as int) == -1);
                    assert(k * spec_sign(dx as int) == -(k as int)) by (nonlinear_arith)
                        requires spec_sign(dx as int) == -1,
                    {}
                }
                if up {
                    assert(spec_sign(dy as int) == 1);
                    assert(k * spec_sign(dy as int) == k as int) by (nonlinear_arith)
                        requires spec_sign(dy as int) == 1,
                    {}
                } else {
                    assert(spec_sign(dy as int) == -1);
                    assert(k * spec_sign(dy as int) == -(k as int)) by (nonlinear_arith)
                        requires spec_sign(dy as int) == -1,
                    {}
                }
                assert(x as int == m.from.x + k * spec_sign(dx as int));
                assert(y as int == m.from.y + k * spec_sign(dy as int));
                assert(x < 8 && y < 8);
            }
            if self.tile_at(Point { x, y }) != Tile::Empty {
                clear = false;
            }
            k = k + 1;
        }
        clear
    }

    /// Checks a king move.
    fn check_king_move(&self, m: Move) -> (r: bool)
        requires
            move_in_bounds(m),
        ensures
            r == spec_king_move(m),
    {
        let dx = m.from.x as i64 - m.to.x as i64;
        let dy = m.from.y as i64 - m.to.y as i64;
        -1 <= dx && dx <= 1 && -1 <= dy && dy <= 1
    }

    /// Dispatches to the piece-specific rule.
    fn check_piece_move(&self, piece: Piece, m: Move, c: Color) -> (r: bool)
        requires
            self.wf(),
            move_in_bounds(m),
        ensures
            r == spec_piece_move(self.grid(), piece, m, c),
    {
        match piece {
            Piece::Pawn => self.check_pawn_move(m, c, false),
            Piece::Rook => self.check_rook_move(m),
            Piece::Knight => self.check_knight_move(m),
            Piece::Bishop => self.check_bishop_move(m),
            Piece::Queen => self.check_rook_move(m) || self.check_bishop_move(m),
            Piece::King => self.check_king_move(m),
        }
    }

    /// Checks a basic move of a side.
    fn check_basic_move(&self, m: Move, c: Color) -> (r: bool)
        requires
            self.wf(),
            move_in_bounds(m),
        ensures
            r == spec_basic_move(self.grid(), m, c),
    {
        match self.tile_at(m.from) {
            Tile::Empty => false,
            Tile::Piece(p, pc) => pc == c && (match self.tile_at(m.to) {
                Tile::Empty => true,
                Tile::Piece(_, c2) => c2 != c,
            }) && self.check_piece_move(p, m, pc),
        }
    }

    /// Whether no recorded move has touched a square.
    fn check_no_moves(&self, p: Point) -> (r: bool)
        ensures
            r == spec_no_moves(self.played(), p),
    {
        let mut i: usize = 0;
        while i < self.moves.len()
            invariant
                i <= self.moves@.len(),
                forall|k: int| 0 <= k < i ==> (#[trigger] self.moves@[k]).from != p && self.moves@[k].to != p,
            decreases self.moves@.len() - i,
        {
            let mv = self.moves[i];
            if mv.from == p || mv.to == p {
                return false;
            }
            i = i + 1;
        }
        true
    }

    /// Follows the recorded moves from a starting square.
    fn trace_moves(&self, p: Point) -> (r: Option<Point>)
        requires
            self.wf(),
            point_in_bounds(p),
        ensures
            r == spec_traced(self.played(), p),
            r matches Some(q) ==> point_in_bounds(q),
    {
        let ghost ms = self.played();
        let mut cur = p;
        let mut i: usize = 0;
        proof {
            assert(ms.skip(0) =~= ms);
        }
        while i < self.moves.len()
            invariant
                i <= ms.len(),
                ms == self.played(),
                point_in_bounds(cur),
                self.wf(),
                spec_traced(ms, p) == spec_traced(ms.skip(i as int), cur),
            decreases ms.len() - i,
        {
            let mv = self.moves[i];
            proof {
                let rem = ms.skip(i as int);
                assert(rem[0] == ms[i as int]);
                assert(rem.drop_first() =~= ms.skip(i + 1 as int));
            }
            if mv.from == cur {
                cur = mv.to;
            } else if mv.to == cur {
                proof {
                    assert(spec_traced(ms.skip(i as int), cur) is None);
                }
                return None;
            }
            i = i + 1;
        }
        proof {
            assert(ms.skip(ms.len() as int) =~= Seq::<Move>::empty());
        }
        Some(cur)
    }

    /// Checks an en passant capture.
    fn check_enpassant(&self, m: Move, c: Color) -> (r: bool)
        requires
            self.wf(),
            move_in_bounds(m),
        ensures
            r == spec_enpassant(self.grid(), self.played(), m, c),
    {
        if !(self.tile_at(m.from) == Tile::Piece(Piece::Pawn, c)
            && self.tile_at(m.to) == Tile::Empty && self.moves.len() > 0) {
            return false;
        }
        let last = self.moves[self.moves.len() - 1];
        match c {
            Color::White => ((m.to.x >= 1 && m.from.x == m.to.x - 1) || m.from.x == m.to.x + 1)
                && m.from.y == 4 && m.to.y == 5
                && last == (Move { from: Point { x: m.to.x, y: 6 }, to: Point { x: m.to.x, y: 4 } }),
            Color::Black => ((m.to.x >= 1 && m.from.x == m.to.x - 1) || m.from.x == m.to.x + 1)
                && m.from.y == 3 && m.to.y == 2
                && last == (Move { from: Point { x: m.to.x, y: 1 }, to: Point { x: m.to.x, y: 3 } }),
        }
    }

    /// Checks a promotion.
    fn check_promotion(&self, m: Move, c: Color, p: Piece) -> (r: bool)
        requires
            self.wf(),
            move_in_bounds(m),
        ensures
            r == spec_promotion(self.grid(), m, c, p),
    {
        self.tile_at(m.from) == Tile::Piece(Piece::Pawn, c) && (match p {
            Piece::Rook | Piece::Knight | Piece::Bishop | Piece::Queen => true,
            _ => false,
        }) && self.check_pawn_move(m, c, true)
    }

    /// Applies a full move of any kind.
    pub fn apply_move_type(&self, t: MoveType) -> (r: ChessBoard)
        requires
            self.wf(),
            move_type_in_bounds(t),
            t matches MoveType::Promotion(m, p) ==> at(self.grid(), m.from) is Piece,
        ensures
            r.wf(),
            (r.grid(), r.played()) == spec_apply_move_type(self.grid(), self.played(), t),
    {
        match t {
            MoveType::Basic(m) => self.apply_move(m),
            MoveType::EnPassant(m) => {
                let hop = Move { from: m.from, to: Point { x: m.to.x, y: m.from.y } };
                let s1 = self.apply_move(hop);
                s1.apply_move(Move { from: Point { x: m.to.x, y: m.from.y }, to: m.to })
            },
            MoveType::Promotion(m, p) => {
                let c = match self.tile_at(m.from) {
                    Tile::Piece(_, c) => c,
                    Tile::Empty => Color::White,
                };
                let s1 = self.apply_move(m);
                s1.set_tile(m.to, Tile::Piece(p, c))
            },
            MoveType::Castling(k, r) => {
                let s1 = self.apply_move(k);
                s1.apply_move(r)
            },
        }
    }

    /// Whether the king of a side is under attack.
    pub fn check_king_check(&self, c: Color) -> (r: bool)
        requires
            self.wf(),
        ensures
            r == spec_king_check(self.grid(), self.played(), c),
    {
        let king = match self.trace_moves(match c {
            Color::White => Point { x: 4, y: 0 },
            Color::Black => Point { x: 4, y: 7 },
        }) {
            Some(k) => k,
            None => {
                return true;
            },
        };
        let ylo: usize = match c.other() {
            Color::White => 0,
            Color::Black => 6,
        };
        let mut x: usize = 0;
        while x < 8
            invariant
                self.wf(),
                x <= 8,
                spec_traced(self.played(), king_start(c)) == Some(king),
                point_in_bounds(king),
                ylo == (match c.spec_other() { Color::White => 0int, Color::Black => 6int }),
                forall|xx: usize, yy: usize| xx < x && home_rank(c.spec_other(), yy as int)
                    ==> (match #[trigger] spec_traced(self.played(), Point { x: xx, y: yy }) {
                        Some(p) => !spec_basic_move(self.grid(), Move { from: p, to: king }, c.spec_other()),
                        None => true,
                    }),
            decreases 8 - x,
        {
            let mut dy: usize = 0;
            while dy < 2
                invariant
                    self.wf(),
                    x < 8,
                    dy <= 2,
                    spec_traced(self.played(), king_start(c)) == Some(king),
                    point_in_bounds(king),
                    ylo == (match c.spec_other() { Color::White => 0int, Color::Black => 6int }),
                    forall|xx: usize, yy: usize| xx < x && home_rank(c.spec_other(), yy as int)
                        ==> (match #[trigger] spec_traced(self.played(), Point { x: xx, y: yy }) {
                            Some(p) => !spec_basic_move(self.grid(), Move { from: p, to: king }, c.spec_other()),
                            None => true,
                        }),
                    forall|yy: usize| ylo <= yy < ylo + dy
                        ==> (match #[trigger] spec_traced(self.played(), Point { x: x, y: yy }) {
                            Some(p) => !spec_basic_move(self.grid(), Move { from: p, to: king }, c.spec_other()),
                            None => true,
                        }),
                decreases 2 - dy,
            {
                let y = ylo + dy;
                let start = Point { x, y };
                proof {
                    assert(home_rank(c.spec_other(), y as int));
                }
                match self.trace_moves(start) {
                    Some(p) => {
                        if self.check_basic_move(Move { from: p, to: king }, c.other()) {
                            proof {
                                assert(home_rank(c.spec_other(), y as int));
                                assert(spec_traced(self.played(), Point { x: x, y: y }) == Some(p));
                            }
                            return true;
                        }
                    },
                    None => {},
                }
                dy = dy + 1;
            }
            proof {
                assert forall|xx: usize, yy: usize| xx < x + 1 && home_rank(c.spec_other(), yy as int)
                    implies (match #[trigger] spec_traced(self.played(), Point { x: xx, y: yy }) {
                        Some(p) => !spec_basic_move(self.grid(), Move { from: p, to: king }, c.spec_other()),
                        None => true,
                    }) by {
                    if xx == x {
                        assert(ylo <= yy < ylo + 2);
                    }
                }
            }
            x = x + 1;
        }
        proof {
            if spec_king_check(self.grid(), self.played(), c) {
                let (xx, yy): (usize, usize) = choose|xx: usize, yy: usize|
                    xx < 8 && home_rank(c.spec_other(), yy as int)
                    && (match #[trigger] spec_traced(self.played(), Point { x: xx, y: yy }) {
                        Some(p) => spec_basic_move(self.grid(), Move { from: p, to: king }, c.spec_other()),
                        None => false,
                    });
                assert(false);
            }
        }
        false
    }
}


impl ChessBoard {
    /// Checks a castling move.
    fn check_castling(&self, k: Move, r: Move, c: Color) -> (res: bool)
        requires
            self.wf(),
            move_in_bounds(k),
            move_in_bounds(r),
        ensures
            res == spec_castling(self.grid(), self.played(), k, r, c),
    {
        if !(self.tile_at(k.from) == Tile::Piece(Piece::King, c)
            && self.tile_at(r.from) == Tile::Piece(Piece::Rook, c)
            && self.check_no_moves(k.from) && self.check_no_moves(r.from)
            && ((r.to.x == 3 && k.to.x == 2) || (r.to.x == 5 && k.to.x == 6))
            && k.to.y == k.from.y
            && self.check_rook_move(r)) {
            return false;
        }
        if self.check_king_check(c) {
            return false;
        }
        let mid_x = if k.to.x >= k.from.x {
            k.from.x + (k.to.x - k.from.x) / 2
        } else {
            k.from.x - (k.from.x - k.to.x) / 2
        };
        let mid = Point { x: mid_x, y: k.to.y };
        proof {
            assert(mid == castle_mid(k));
        }
        let half = self.apply_move(Move { from: k.from, to: mid });
        if half.check_king_check(c) {
            return false;
        }
        let full = self.apply_move(k);
        proof {
            assert((full.grid(), full.played())
                == spec_apply_move_type(self.grid(), self.played(), MoveType::Basic(k)));
        }
        if full.check_king_check(c) {
            return false;
        }
        true
    }

    /// Whether a submitted move is legal for a side.
    pub fn check_move(&self, opt: Option<MoveType>, color: Color) -> (r: bool)
        requires
            self.wf(),
            opt matches Some(t) ==> move_type_in_bounds(t),
        ensures
            r == spec_check_move(self.grid(), self.played(), opt, color),
    {
        let t = match opt {
            Some(t) => t,
            None => {
                return false;
            },
        };
        let kind_ok = match t {
            MoveType::Basic(m) => self.check_basic_move(m, color),
            MoveType::EnPassant(m) => self.check_enpassant(m, color),
            MoveType::Promotion(m, p) => self.check_promotion(m, color, p),
            MoveType::Castling(k, r) => self.check_castling(k, r, color),
        };
        if !kind_ok {
            return false;
        }
        proof {
            match t {
                MoveType::Promotion(m, p) => {
                    assert(at(self.grid(), m.from) is Piece);
                },
                _ => {},
            }
        }
        let after = self.apply_move_type(t);
        !after.check_king_check(color)
    }

    /// Whether the side to move is checkmated.
    #[verifier::rlimit(100)]
    pub fn check_king_mate(&self, color: Color) -> (r: bool)
        requires
            self.wf(),
        ensures
            r == spec_king_mate(self.grid(), self.played(), color),
    {
        let ylo: usize = match color {
            Color::White => 0,
            Color::Black => 6,
        };
        let ghost g = self.grid();
        let ghost ms = self.played();
        let mut x0: usize = 0;
        while x0 < 8
            invariant
                self.wf(),
                g == self.grid(),
                ms == self.played(),
                x0 <= 8,
                ylo == (match color { Color::White => 0int, Color::Black => 6int }),
                forall|xx: usize, yy: usize| xx < x0 && home_rank(color, yy as int)
                    ==> (match #[trigger] spec_traced(ms, Point { x: xx, y: yy }) {
                        Some(p) => spec_no_legal_basic(g, ms, p, color),
                        None => true,
                    }),
            decreases 8 - x0,
        {
            let mut dy: usize = 0;
            while dy < 2
                invariant
                    self.wf(),
                    g == self.grid(),
                    ms == self.played(),
                    x0 < 8,
                    dy <= 2,
                    ylo == (match color { Color::White => 0int, Color::Black => 6int }),
                    forall|yy: usize| ylo <= yy < ylo + dy
                        ==> (match #[trigger] spec_traced(ms, Point { x: x0, y: yy }) {
                            Some(p) => spec_no_legal_basic(g, ms, p, color),
                            None => true,
                        }),
                decreases 2 - dy,
            {
                let y0 = ylo + dy;
                match self.trace_moves(Point { x: x0, y: y0 }) {
                    Some(p) => {
                        let mut x: usize = 0;
                        while x < 8
                            invariant
                                self.wf(),
                                g == self.grid(),
                                ms == self.played(),
                                x <= 8,
                                x0 < 8,
                                point_in_bounds(p),
                                home_rank(color, y0 as int),
                                spec_traced(ms, Point { x: x0 as usize, y: y0 as usize }) == Some(p),
                                forall|xc: usize, yc: usize| xc < x && yc < 8
                                    ==> !#[trigger] spec_check_move(g, ms, Some(MoveType::Basic(Move {
                                        from: p,
                                        to: Point { x: xc, y: yc },
                                    })), color),
                            decreases 8 - x,
                        {
                            let mut y: usize = 0;
                            while y < 8
                                invariant
                                    self.wf(),
                                    g == self.grid(),
                                    ms == self.played(),
                                    x < 8,
                                    y <= 8,
                                    x0 < 8,
                                    point_in_bounds(p),
                                    home_rank(color, y0 as int),
                                    spec_traced(ms, Point { x: x0 as usize, y: y0 as usize }) == Some(p),
                                    forall|yc: usize| yc < y
                                        ==> !#[trigger] spec_check_move(g, ms, Some(MoveType::Basic(Move {
                                            from: p,
                                            to: Point { x: x, y: yc },
                                        })), color),
                                decreases 8 - y,
                            {
                                if self.check_move(Some(MoveType::Basic(Move {
                                    from: p,
                                    to: Point { x, y },
                                })), color) {
                                    proof {
                                        assert(home_rank(color, y0 as int));
                                        assert(spec_traced(ms, Point { x: x0, y: y0 }) == Some(p));
                                        assert(spec_check_move(g, ms, Some(MoveType::Basic(Move {
                                            from: p,
                                            to: Point { x: x, y: y },
                                        })), color));
                                        assert(!spec_no_legal_basic(g, ms, p, color));
                                        assert(!spec_king_mate(g, ms, color));
                                    }
                                    return false;
                                }
                                y = y + 1;
                            }
                            proof {
                                assert forall|xc: usize, yc: usize| xc < x + 1 && yc < 8
                                    implies !#[trigger] spec_check_move(g, ms, Some(MoveType::Basic(Move {
                                        from: p,
                                        to: Point { x: xc, y: yc },
                                    })), color) by {
                                    if xc == x {
                                        assert(!spec_check_move(g, ms, Some(MoveType::Basic(Move {
                                            from: p,
                                            to: Point { x: x, y: yc },
                                        })), color));
                                    }
                                }
                            }
                            x = x + 1;
                        }
                        proof {
                            assert(spec_no_legal_basic(g, ms, p, color));
                        }
                    },
                    None => {},
                }
                dy = dy + 1;
            }
            proof {
                assert forall|xx: usize, yy: usize| xx < x0 + 1 && home_rank(color, yy as int)
                    implies (match #[trigger] spec_traced(ms, Point { x: xx, y: yy }) {
                        Some(p) => forall|x: usize, y: usize| x < 8 && y < 8
                            ==> !#[trigger] spec_check_move(g, ms, Some(MoveType::Basic(Move {
                                from: p,
                                to: Point { x: x, y: y },
                            })), color),
                        None => true,
                    }) by {
                    if xx == x0 {
                        assert(ylo <= yy < ylo + 2);
                    }
                }
            }
            x0 = x0 + 1;
        }
        true
    }
}

} // verus!



