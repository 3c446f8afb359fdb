use vstd::prelude::*;

use crate::cache::{CloneCacheKey, ZobristHash};
use crate::evaluate::{EvaluateZeroSum, Value};
use crate::moves::Moves;
use crate::play::PlayClone;

verus! {

/// One of the two marks of tic-tac-toe. `X` is the maximizing player,
/// `O` the minimizing one.
#[derive(Clone, Copy, Debug, PartialEq, Eq, Structural)]
pub enum Symbol {
    X,
    O,
}

/// The mark the other player uses.
pub open spec fn flip(s: Symbol) -> Symbol {
    match s {
        Symbol::X => Symbol::O,
        Symbol::O => Symbol::X,
    }
}

/// A move of tic-tac-toe: place the acting player's mark at column `x`,
/// row `y`.
#[derive(Clone, Copy, Debug, PartialEq, Eq, Structural)]
pub struct Place {
    /// The column, `0..3`.
    pub x: usize,
    /// The row, `0..3`.
    pub y: usize,
}

/// A game of 3-by-3 tic-tac-toe: the demonstration game of the engine,
/// and the state the engine's end-to-end tests drive. `O` moves first;
/// three equal marks on a row, column or diagonal win; a player facing a
/// finished game has no moves.
#[derive(Clone, Copy, Debug, PartialEq, Eq)]
pub struct TicTacToe {
    turn: Symbol,
    c0: Option<Symbol>,
    c1: Option<Symbol>,
    c2: Option<Symbol>,
    c3: Option<Symbol>,
    c4: Option<Symbol>,
    c5: Option<Symbol>,
    c6: Option<Symbol>,
    c7: Option<Symbol>,
    c8: Option<Symbol>,
}

/// The mark at flat cell index `i` (column-major: cell `i` is column
/// `i / 3`, row `i % 3`).
pub closed spec fn cell(s: TicTacToe, i: int) -> Option<Symbol> {
    if i == 0 {
        s.c0
    } else if i == 1 {
        s.c1
    } else if i == 2 {
        s.c2
    } else if i == 3 {
        s.c3
    } else if i == 4 {
        s.c4
    } else if i == 5 {
        s.c5
    } else if i == 6 {
        s.c6
    } else if i == 7 {
        s.c7
    } else {
        s.c8
    }
}

/// The state with cell `i` replaced by `v` and everything else unchanged.
pub closed spec fn put_cell(s: TicTacToe, i: int, v: Option<Symbol>) -> TicTacToe {
    if i == 0 {
        TicTacToe { c0: v, ..s }
    } else if i == 1 {
        TicTacToe { c1: v, ..s }
    } else if i == 2 {
        TicTacToe { c2: v, ..s }
    } else if i == 3 {
        TicTacToe { c3: v, ..s }
    } else if i == 4 {
        TicTacToe { c4: v, ..s }
    } else if i == 5 {
        TicTacToe { c5: v, ..s }
    } else if i == 6 {
        TicTacToe { c6: v, ..s }
    } else if i == 7 {
        TicTacToe { c7: v, ..s }
    } else {
        TicTacToe { c8: v, ..s }
    }
}

/// The flat cell index of a move.
pub open spec fn idx_of(m: Place) -> int {
    m.x * 3 + m.y
}

/// The move that fills flat cell index `j`.
pub open spec fn place_of(j: int) -> Place {
    Place { x: (j / 3) as usize, y: (j % 3) as usize }
}

/// The mark that owns the whole line `(a, b, c)`, if any.
pub closed spec fn spec_line(s: TicTacToe, a: int, b: int, c: int) -> Option<Symbol> {
    match cell(s, a) {
        Some(v) => if cell(s, b) == Some(v) && cell(s, c) == Some(v) {
            Some(v)
        } else {
            None
        },
        None => None,
    }
}

/// The winner of the position: the owner of the first complete line, in
/// the fixed order rows, columns, diagonals.
pub closed spec fn spec_winner(s: TicTacToe) -> Option<Symbol> {
    if spec_line(s, 0, 1, 2) is Some {
        spec_line(s, 0, 1, 2)
    } else if spec_line(s, 3, 4, 5) is Some {
        spec_line(s, 3, 4, 5)
    } else if spec_line(s, 6, 7, 8) is Some {
        spec_line(s, 6, 7, 8)
    } else if spec_line(s, 0, 3, 6) is Some {
        spec_line(s, 0, 3, 6)
    } else if spec_line(s, 1, 4, 7) is Some {
        spec_line(s, 1, 4, 7)
    } else if spec_line(s, 2, 5, 8) is Some {
        spec_line(s, 2, 5, 8)
    } else if spec_line(s, 0, 4, 8) is Some {
        spec_line(s, 0, 4, 8)
    } else if spec_line(s, 2, 4, 6) is Some {
        spec_line(s, 2, 4, 6)
    } else {
        None
    }
}

/// The moves that fill the empty cells with index `i` or higher, in
/// index order.
pub closed spec fn empty_cells_from(s: TicTacToe, i: int) -> Seq<Place>
    decreases 9 - i,
{
    if !(0 <= i < 9) {
        Seq::empty()
    } else if cell(s, i) is None {
        seq![place_of(i)] + empty_cells_from(s, i + 1)
    } else {
        empty_cells_from(s, i + 1)
    }
}

impl TicTacToe {
    /// An empty board, with `O` to move.
    pub fn new() -> (r: TicTacToe)
        ensures
            r.inv(),
            r.height() == 9,
            r.spec_moves().len() == 9,
            r.spec_winner_of() is None,
            r.spec_min_turn(),
            forall|i: int| 0 <= i < 9 ==> cell(r, i) is None,
    {
        let r = TicTacToe {
            turn: Symbol::O,
            c0: None,
            c1: None,
            c2: None,
            c3: None,
            c4: None,
            c5: None,
            c6: None,
            c7: None,
            c8: None,
        };
        proof {
            reveal_with_fuel(empty_cells_from, 11);
            assert(empty_cells_from(r, 0).len() == 9);
        }
        r
    }

    /// The winner of this position, as a specification.
    pub open spec fn spec_winner_of(&self) -> Option<Symbol> {
        spec_winner(*self)
    }

    /// The mark at column `x`, row `y`.
    pub fn at(&self, x: usize, y: usize) -> (r: Option<Symbol>)
        requires
            x < 3,
            y < 3,
        ensures
            r == cell(*self, x * 3 + y),
    {
        self.get_cell(x * 3 + y)
    }

    fn get_cell(&self, i: usize) -> (r: Option<Symbol>)
        requires
            i < 9,
        ensures
            r == cell(*self, i as int),
    {
        match i {
            0 => self.c0,
            1 => self.c1,
            2 => self.c2,
            3 => self.c3,
            4 => self.c4,
            5 => self.c5,
            6 => self.c6,
            7 => self.c7,
            _ => self.c8,
        }
    }

    fn set_cell(&mut self, i: usize, v: Option<Symbol>)
        requires
            i < 9,
        ensures
            *final(self) == put_cell(*old(self), i as int, v),
    {
        match i {
            0 => self.c0 = v,
            1 => self.c1 = v,
            2 => self.c2 = v,
            3 => self.c3 = v,
            4 => self.c4 = v,
            5 => self.c5 = v,
            6 => self.c6 = v,
            7 => self.c7 = v,
            _ => self.c8 = v,
        }
    }

    fn line_winner(&self, a: usize, b: usize, c: usize) -> (r: Option<Symbol>)
        requires
            a < 9,
            b < 9,
            c < 9,
        ensures
            r == spec_line(*self, a as int, b as int, c as int),
    {
        match self.get_cell(a) {
            Some(v) => {
                let vb = self.get_cell(b);
                let vc = self.get_cell(c);
                if cell_eq(vb, Some(v)) && cell_eq(vc, Some(v)) {
                    Some(v)
                } else {
                    None
                }
            },
            None => None,
        }
    }

    /// The winner of the position, if a line is complete.
    pub fn winner(&self) -> (r: Option<Symbol>)
        ensures
            r == spec_winner(*self),
    {
        let mut w = self.line_winner(0, 1, 2);
        if w.is_none() {
            w = self.line_winner(3, 4, 5);
        }
        if w.is_none() {
            w = self.line_winner(6, 7, 8);
        }
        if w.is_none() {
            w = self.line_winner(0, 3, 6);
        }
        if w.is_none() {
            w = self.line_winner(1, 4, 7);
        }
        if w.is_none() {
            w = self.line_winner(2, 5, 8);
        }
        if w.is_none() {
            w = self.line_winner(0, 4, 8);
        }
        if w.is_none() {
            w = self.line_winner(2, 4, 6);
        }
        w
    }
}

/// Decides equality of two cells.
fn cell_eq(a: Option<Symbol>, b: Option<Symbol>) -> (r: bool)
    ensures
        r == (a == b),
{
    match (a, b) {
        (None, None) => true,
        (Some(x), Some(y)) => x == y,
        _ => false,
    }
}

/// Cell lookup after a cell update: the updated index reads the new mark,
/// every other index is unchanged, and whose turn it is never affects a
/// cell.
proof fn lemma_cell_put(s: TicTacToe, k: int, v: Option<Symbol>, j: int)
    requires
        0 <= k < 9,
        0 <= j < 9,
    ensures
        cell(put_cell(s, k, v), j) == if j == k {
            v
        } else {
            cell(s, j)
        },
{
}

/// Every move in the empty-cell enumeration is the move of an empty cell
/// with a valid index, and the enumeration is never longer than the cells
/// it scans.
proof fn lemma_ecf_members(s: TicTacToe, i: int)
    requires
        0 <= i <= 9,
    ensures
        forall|p: Place| #[trigger]
            empty_cells_from(s, i).contains(p) ==> exists|j: int|
                i <= j < 9 && p == place_of(j) && cell(s, j) is None,
        empty_cells_from(s, i).len() <= 9 - i,
    decreases 9 - i,
{
    if i < 9 {
        lemma_ecf_members(s, i + 1);
        assert forall|p: Place| #[trigger]
            empty_cells_from(s, i).contains(p) implies exists|j: int|
            i <= j < 9 && p == place_of(j) && cell(s, j) is None by {
            if cell(s, i) is None && p == place_of(i) {
                assert(i <= i < 9 && p == place_of(i) && cell(s, i) is None);
            } else {
                assert(empty_cells_from(s, i + 1).contains(p));
            }
        }
    }
}

/// Filling an empty cell shortens the empty-cell enumeration of every
/// prefix position by exactly one.
proof fn lemma_ecf_put(s: TicTacToe, k: int, v: Symbol, i: int)
    requires
        0 <= k < 9,
        cell(s, k) is None,
        0 <= i <= 9,
    ensures
        empty_cells_from(put_cell(s, k, Some(v)), i).len() == if i <= k {
            empty_cells_from(s, i).len() - 1
        } else {
            empty_cells_from(s, i).len() as int
        },
    decreases 9 - i,
{
    if i < 9 {
        lemma_ecf_put(s, k, v, i + 1);
        lemma_cell_put(s, k, Some(v), i);
    }
}

impl Moves for TicTacToe {
    type Move = Place;

    open spec fn inv(&self) -> bool {
        true
    }

    closed spec fn height(&self) -> nat {
        empty_cells_from(*self, 0).len()
    }

    closed spec fn spec_moves(&self) -> Seq<Place> {
        if spec_winner(*self) is Some {
            Seq::empty()
        } else {
            empty_cells_from(*self, 0)
        }
    }

    closed spec fn spec_play(&self, m: Place) -> TicTacToe {
        let filled = put_cell(*self, idx_of(m), Some(self.turn));
        TicTacToe { turn: flip(self.turn), ..filled }
    }

    proof fn lemma_play_wf(&self, m: Place) {
        lemma_ecf_members(*self, 0);
        let j = choose|j: int| 0 <= j < 9 && m == place_of(j) && cell(*self, j) is None;
        assert(idx_of(m) == j);
        lemma_ecf_put(*self, j, self.turn, 0);
        let filled = put_cell(*self, j, Some(self.turn));
        let played = self.spec_play(m);
        assert forall|i: int| 0 <= i <= 9 implies empty_cells_from(played, i) == empty_cells_from(
            filled,
            i,
        ) by {
            lemma_ecf_same_cells(filled, played, i);
        }
    }

    fn moves(&self) -> (r: Vec<Place>) {
        let mut r: Vec<Place> = Vec::new();
        if self.winner().is_some() {
            return r;
        }
        let mut i: usize = 0;
        while i < 9
            invariant
                i <= 9,
                spec_winner(*self) is None,
                r@ + empty_cells_from(*self, i as int) =~= empty_cells_from(*self, 0),
            decreases 9 - i,
        {
            if self.get_cell(i).is_none() {
                let p = Place { x: i / 3, y: i % 3 };
                proof {
                    assert(p == place_of(i as int));
                }
                r.push(p);
            }
            proof {
                assert(r@ + empty_cells_from(*self, i as int + 1) =~= empty_cells_from(
                    *self,
                    0,
                ));
            }
            i = i + 1;
        }
        proof {
            assert(r@ =~= empty_cells_from(*self, 0));
        }
        r
    }
}

/// Two positions with equal cells enumerate equal empty cells, whoever is
/// to move.
proof fn lemma_ecf_same_cells(a: TicTacToe, b: TicTacToe, i: int)
    requires
        0 <= i <= 9,
        forall|j: int| 0 <= j < 9 ==> cell(a, j) == cell(b, j),
    ensures
        empty_cells_from(a, i) == empty_cells_from(b, i),
    decreases 9 - i,
{
    if i < 9 {
        lemma_ecf_same_cells(a, b, i + 1);
    }
}

impl EvaluateZeroSum for TicTacToe {
    closed spec fn spec_min_turn(&self) -> bool {
        self.turn == Symbol::O
    }

    closed spec fn spec_value(&self) -> int {
        match spec_winner(*self) {
            Some(Symbol::X) => 1,
            Some(Symbol::O) => -1,
            None => 0,
        }
    }

    open spec fn spec_quiet(&self) -> bool {
        true
    }

    proof fn lemma_value_wf(&self) {
    }

    fn min_turn(&self) -> (b: bool) {
        match self.turn {
            Symbol::O => true,
            Symbol::X => false,
        }
    }

    fn evaluate(&self) -> (v: Value) {
        match self.winner() {
            Some(Symbol::X) => 1,
            Some(Symbol::O) => -1,
            None => 0,
        }
    }

    fn quiet(&self) -> (q: bool) {
        true
    }
}

impl PlayClone for TicTacToe {
    fn play(&mut self, m: &Place) {
        proof {
            lemma_ecf_members(*self, 0);
            let j = choose|j: int|
                0 <= j < 9 && *m == place_of(j) && cell(*old(self), j) is None;
            assert(idx_of(*m) == j);
        }
        let mark = self.turn;
        self.set_cell(m.x * 3 + m.y, Some(mark));
        self.turn = match self.turn {
            Symbol::X => Symbol::O,
            Symbol::O => Symbol::X,
        };
    }
}

impl ZobristHash for TicTacToe {
    closed spec fn spec_hash(&self) -> usize {
        (hash_cells(*self, 0) + if self.turn == Symbol::O {
            19683int
        } else {
            0int
        }) as usize
    }

    fn zobrist_hash(&self) -> (h: usize) {
        let mut h: usize = 0;
        let mut i: usize = 9;
        while i > 0
            invariant
                i <= 9,
                h as int == hash_cells(*self, i as int),
                0 <= h < 19683,
            decreases i,
        {
            proof {
                lemma_hash_cells_bound(*self, i as int - 1);
            }
            i = i - 1;
            h = 3 * h + cell_code(self.get_cell(i));
        }
        if self.min_turn() {
            h = h + 19683;
        }
        h
    }
}

/// The numeric code of a cell for the structural hash.
pub closed spec fn code_of(c: Option<Symbol>) -> int {
    match c {
        None => 0,
        Some(Symbol::X) => 1,
        Some(Symbol::O) => 2,
    }
}

/// The base-3 reading of the cells from index `i` on.
pub closed spec fn hash_cells(s: TicTacToe, i: int) -> int
    decreases 9 - i,
{
    if !(0 <= i < 9) {
        0
    } else {
        code_of(cell(s, i)) + 3 * hash_cells(s, i + 1)
    }
}

/// The base-3 reading of a tail of the board stays under the hash's turn
/// bit.
proof fn lemma_hash_cells_bound(s: TicTacToe, i: int)
    ensures
        0 <= hash_cells(s, i) < 19683,
    decreases 9 - i,
{
    if 0 <= i < 9 {
        lemma_hash_cells_tail_bound(s, i);
        proof_pow3_9();
    }
}

/// The deeper bound: the reading from index `i` fits in `9 - i` base-3
/// digits.
proof fn lemma_hash_cells_tail_bound(s: TicTacToe, i: int)
    requires
        0 <= i <= 9,
    ensures
        0 <= hash_cells(s, i) < pow3(9 - i),
    decreases 9 - i,
{
    if i < 9 {
        lemma_hash_cells_tail_bound(s, i + 1);
    } else {
        reveal_with_fuel(pow3, 1);
    }
    proof_pow3_9();
}

/// Three to the `n`-th power.
pub closed spec fn pow3(n: int) -> int
    decreases n,
{
    if n <= 0 {
        1
    } else {
        3 * pow3(n - 1)
    }
}

/// The hash's turn bit sits just above nine base-3 digits.
proof fn proof_pow3_9()
    ensures
        pow3(9) == 19683,
        forall|n: int| 0 <= n < 9 ==> #[trigger] pow3(n) < 19683,
{
    reveal_with_fuel(pow3, 10);
    assert(pow3(0) == 1 && pow3(1) == 3 && pow3(2) == 9 && pow3(3) == 27 && pow3(4) == 81
        && pow3(5) == 243 && pow3(6) == 729 && pow3(7) == 2187 && pow3(8) == 6561 && pow3(9)
        == 19683);
}

fn cell_code(c: Option<Symbol>) -> (r: usize)
    ensures
        r as int == code_of(c),
{
    match c {
        None => 0,
        Some(Symbol::X) => 1,
        Some(Symbol::O) => 2,
    }
}

impl CloneCacheKey for TicTacToe {
    fn state_eq(a: &TicTacToe, b: &TicTacToe) -> (r: bool) {
        let turn_eq = match (a.turn, b.turn) {
            (Symbol::X, Symbol::X) => true,
            (Symbol::O, Symbol::O) => true,
            _ => false,
        };
        turn_eq && cell_eq(a.c0, b.c0) && cell_eq(a.c1, b.c1) && cell_eq(a.c2, b.c2) && cell_eq(
            a.c3,
            b.c3,
        ) && cell_eq(a.c4, b.c4) && cell_eq(a.c5, b.c5) && cell_eq(a.c6, b.c6) && cell_eq(
            a.c7,
            b.c7,
        ) && cell_eq(a.c8, b.c8)
    }
}

} // verus!
