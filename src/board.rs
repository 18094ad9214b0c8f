use vstd::prelude::*;

use crate::piece::{Color, Piece, Role};
use crate::position::Position;

verus! {

/// Where the square (row, column) sits in the board's cells, row by row.
pub open spec fn cell_index(row: int, column: int) -> int {
    (row - 1) * 8 + (column - 1)
}

/// Whether (row, column) lies within the 8x8 board.
pub open spec fn on_board(row: int, column: int) -> bool {
    1 <= row <= 8 && 1 <= column <= 8
}

/// How many of `cells` hold a piece.
pub open spec fn occupied_count(cells: Seq<Option<Piece>>) -> nat
    decreases cells.len(),
{
    if cells.len() == 0 {
        0
    } else {
        occupied_count(cells.drop_last()) + if cells.last() is Some {
            1nat
        } else {
            0nat
        }
    }
}

/// Overwriting one cell changes the count by what left and what came.
pub proof fn lemma_occupied_count_update(cells: Seq<Option<Piece>>, i: int, v: Option<Piece>)
    requires
        0 <= i < cells.len(),
    ensures
        occupied_count(cells.update(i, v)) + (if cells[i] is Some {
            1int
        } else {
            0int
        }) == occupied_count(cells) + (if v is Some {
            1int
        } else {
            0int
        }),
    decreases cells.len(),
{
    let u = cells.update(i, v);
    if i == cells.len() - 1 {
        assert(u.drop_last() =~= cells.drop_last());
    } else {
        assert(u.drop_last() =~= cells.drop_last().update(i, v));
        lemma_occupied_count_update(cells.drop_last(), i, v);
    }
}

/// The board: at most one piece on each of its 64 squares.
pub struct Board {
    cells: Vec<Option<Piece>>,
}

impl View for Board {
    type V = Seq<Option<Piece>>;

    /// The 64 squares, row 1 first, each row from column 1 to column 8.
    closed spec fn view(&self) -> Seq<Option<Piece>> {
        self.cells@
    }
}

impl Board {
    /// What stands on (row, column); nothing off the board.
    pub open spec fn occupant(&self, row: int, column: int) -> Option<Piece> {
        if on_board(row, column) {
            self@[cell_index(row, column)]
        } else {
            None
        }
    }

    /// What stands on the square `p`.
    pub open spec fn at(&self, p: Position) -> Option<Piece> {
        self.occupant(p.row as int, p.column as int)
    }

    /// How many pieces stand on the board.
    pub open spec fn count(&self) -> nat {
        occupied_count(self@)
    }

    /// Whether a king of side `c` stands on the board.
    pub open spec fn has_king(&self, c: Color) -> bool {
        exists|p: Position|
            #[trigger] self.at(p) is Some && self.at(p)->Some_0.role == Role::King && self.at(
                p,
            )->Some_0.color == c
    }

    /// Every square is stored once, and a piece records the square it stands on.
    pub open spec fn wf(&self) -> bool {
        &&& self@.len() == 64
        &&& forall|p: Position|
            #[trigger] self.at(p) is Some ==> self.at(p)->Some_0.position == p
    }

    /// A board with no piece on it.
    pub fn empty() -> (b: Board)
        ensures
            b.wf(),
            forall|p: Position| #[trigger] b.at(p) is None,
    {
        let mut cells: Vec<Option<Piece>> = Vec::new();
        while cells.len() < 64
            invariant
                cells@.len() <= 64,
                forall|i: int| 0 <= i < cells@.len() ==> cells@[i] is None,
            decreases 64 - cells@.len(),
        {
            cells.push(None);
        }
        Board { cells }
    }

    /// The piece on square `p`, if any.
    pub fn get(&self, p: Position) -> (r: Option<Piece>)
        requires
            self.wf(),
        ensures
            r == self.at(p),
    {
        if p.is_valid() {
            self.cells[((p.row - 1) * 8 + (p.column - 1)) as usize]
        } else {
            None
        }
    }

    /// Puts `piece` on the square it records, replacing what stood there.
    pub fn place(&mut self, piece: Piece)
        requires
            old(self).wf(),
            piece.position.on_board(),
        ensures
            final(self).wf(),
            final(self)@ == old(self)@.update(
                cell_index(piece.position.row as int, piece.position.column as int),
                Some(piece),
            ),
            forall|p: Position|
                #[trigger] final(self).at(p) == if p == piece.position {
                    Some(piece)
                } else {
                    old(self).at(p)
                },
    {
        let i = ((piece.position.row - 1) * 8 + (piece.position.column - 1)) as usize;
        self.cells.set(i, Some(piece));
        proof {
            assert forall|q: Position|
                #[trigger] self.at(q) == if q == piece.position {
                    Some(piece)
                } else {
                    old(self).at(q)
                } by {
                if q != piece.position && on_board(q.row as int, q.column as int) {
                    assert(q.row != piece.position.row || q.column != piece.position.column);
                }
            }
        }
    }

    /// Whether a king of side `color` stands on the board.
    pub fn has_king_of(&self, color: Color) -> (r: bool)
        requires
            self.wf(),
        ensures
            r == self.has_king(color),
    {
        let mut row: i8 = 1;
        while row <= 8
            invariant
                self.wf(),
                1 <= row <= 9,
                forall|p: Position|
                    p.row < row && #[trigger] self.at(p) is Some ==> !(self.at(p)->Some_0.role
                        == Role::King && self.at(p)->Some_0.color == color),
            decreases 9 - row,
        {
            let mut column: i8 = 1;
            while column <= 8
                invariant
                    self.wf(),
                    1 <= row <= 8,
                    1 <= column <= 9,
                    forall|p: Position|
                        (p.row < row || (p.row == row && p.column < column)) && #[trigger] self.at(
                            p,
                        ) is Some ==> !(self.at(p)->Some_0.role == Role::King && self.at(
                            p,
                        )->Some_0.color == color),
                decreases 9 - column,
            {
                let here = Position { row, column };
                if let Some(piece) = self.get(here) {
                    if piece.role == Role::King && piece.color == color {
                        return true;
                    }
                }
                column = column + 1;
            }
            row = row + 1;
        }
        false
    }

    /// Empties square `p`.
    pub fn clear(&mut self, p: Position)
        requires
            old(self).wf(),
            p.on_board(),
        ensures
            final(self).wf(),
            final(self)@ == old(self)@.update(cell_index(p.row as int, p.column as int), None),
            forall|q: Position|
                #[trigger] final(self).at(q) == if q == p {
                    None
                } else {
                    old(self).at(q)
                },
    {
        let i = ((p.row - 1) * 8 + (p.column - 1)) as usize;
        self.cells.set(i, None);
        proof {
            assert forall|q: Position|
                #[trigger] self.at(q) == if q == p {
                    None
                } else {
                    old(self).at(q)
                } by {
                if q != p && on_board(q.row as int, q.column as int) {
                    assert(q.row != p.row || q.column != p.column);
                }
            }
        }
    }
}

} // verus!
