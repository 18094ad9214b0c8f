use vstd::prelude::*;

use crate::board::{cell_index, lemma_occupied_count_update, Board};
use crate::piece::{lemma_reaches_available, opponent, reaches, Color, Piece, Role};
use crate::position::{parse_square, Position};

verus! {

/// The phase of a game.
#[derive(Clone, Copy, Debug, PartialEq, Eq, Structural)]
pub enum GameState {
    /// Moves are accepted.
    InProgress,
    /// A pawn has reached the far rank and must be promoted before anything else.
    PendingPromotion,
    /// A king has been captured; nothing changes the board any more.
    GameOver,
}

/// Why a request was refused. A refused request leaves the game unchanged.
#[derive(Clone, Copy, Debug, PartialEq, Eq, Structural)]
pub enum ChessError {
    /// A square code is not a file letter `a`-`h` followed by a rank digit `1`-`8`.
    ParseError,
    /// No piece stands on the square the move starts from.
    NoPieceAtSquare,
    /// The piece to move belongs to the side that is not to play.
    WrongTurn,
    /// The piece cannot move to the requested square.
    IllegalMove,
    /// No promotion is pending, the role is a pawn or a king, or the square holds
    /// no pawn of the side to play on rank 1 or 8.
    InvalidPromotionRequest,
    /// The game is over.
    GameAlreadyOver,
    /// A promotion must be resolved first.
    PromotionPending,
}

/// What stands on square `p` when a game begins.
pub open spec fn initial_occupant(p: Position) -> Option<Piece> {
    if !p.on_board() {
        None
    } else if p.row == 1 || p.row == 8 {
        Some(
            Piece {
                color: if p.row == 1 {
                    Color::White
                } else {
                    Color::Black
                },
                role: back_rank_role(p.column as int),
                position: p,
                has_moved: false,
            },
        )
    } else if p.row == 2 || p.row == 7 {
        Some(
            Piece {
                color: if p.row == 2 {
                    Color::White
                } else {
                    Color::Black
                },
                role: Role::Pawn,
                position: p,
                has_moved: false,
            },
        )
    } else {
        None
    }
}

/// The role that starts on `column` of a side's first rank: rooks, knights and
/// bishops from the edges inwards, the queen on column 4 and the king on column 5.
pub open spec fn back_rank_role(column: int) -> Role {
    if column == 1 || column == 8 {
        Role::Rook
    } else if column == 2 || column == 7 {
        Role::Knight
    } else if column == 3 || column == 6 {
        Role::Bishop
    } else if column == 4 {
        Role::Queen
    } else {
        Role::King
    }
}

/// The piece once it has moved to `to`.
pub open spec fn moved_piece(piece: Piece, to: Position) -> Piece {
    Piece { position: to, has_moved: true, ..piece }
}

/// A pawn on rank 1 or 8, waiting to be promoted.
pub open spec fn promotes(piece: Piece) -> bool {
    piece.role == Role::Pawn && (piece.position.row == 1 || piece.position.row == 8)
}

/// Why moving the piece on the square coded `from` to the square coded `to` is
/// refused, checked in this order; `None` when the move is made.
pub open spec fn move_refusal(g: Game, from: Seq<char>, to: Seq<char>) -> Option<ChessError> {
    let from_square = parse_square(from)->Some_0;
    let to_square = parse_square(to)->Some_0;
    let mover = g.pieces().at(from_square)->Some_0;
    if g.phase() == GameState::GameOver {
        Some(ChessError::GameAlreadyOver)
    } else if g.phase() == GameState::PendingPromotion {
        Some(ChessError::PromotionPending)
    } else if parse_square(from) is None || parse_square(to) is None {
        Some(ChessError::ParseError)
    } else if g.pieces().at(from_square) is None {
        Some(ChessError::NoPieceAtSquare)
    } else if mover.color != g.turn() {
        Some(ChessError::WrongTurn)
    } else if !reaches(mover, g.pieces(), to_square) {
        Some(ChessError::IllegalMove)
    } else {
        None
    }
}

/// `after` is `before` once the piece on `from` has moved to `to`. Whatever stood on
/// `to` has left the board and the mover stands there, marked as moved. A pawn that
/// reached rank 1 or 8 waits for promotion and the turn does not pass. Otherwise
/// the turn passes, and the game is over if the side now to play has no king.
pub open spec fn move_applied(before: Game, after: Game, from: Position, to: Position) -> bool {
    let mover = moved_piece(before.pieces().at(from)->Some_0, to);
    &&& after.pieces()@ == before.pieces()@.update(
        cell_index(from.row as int, from.column as int),
        None,
    ).update(cell_index(to.row as int, to.column as int), Some(mover))
    &&& if promotes(mover) {
        after.phase() == GameState::PendingPromotion && after.turn() == before.turn()
    } else {
        &&& after.turn() == opponent(before.turn())
        &&& after.phase() == if after.pieces().has_king(after.turn()) {
            GameState::InProgress
        } else {
            GameState::GameOver
        }
    }
}

/// Why promoting the pawn on the square coded `square` to `role` is refused, checked
/// in this order; `None` when the promotion is made.
pub open spec fn promotion_refusal(g: Game, square: Seq<char>, role: Role) -> Option<ChessError> {
    let target = parse_square(square)->Some_0;
    let pawn = g.pieces().at(target)->Some_0;
    if g.phase() != GameState::PendingPromotion || role == Role::Pawn || role == Role::King {
        Some(ChessError::InvalidPromotionRequest)
    } else if parse_square(square) is None {
        Some(ChessError::ParseError)
    } else if g.pieces().at(target) is None || pawn.color != g.turn() || !promotes(pawn) {
        Some(ChessError::InvalidPromotionRequest)
    } else {
        None
    }
}

/// `after` is `before` once the pawn on `square` has become a piece of `role`. The
/// promotion completes the move that brought the pawn there: the turn passes, and the
/// game is over if the side now to play has no king.
pub open spec fn promotion_applied(before: Game, after: Game, square: Position, role: Role) -> bool {
    let promoted = Piece { color: before.turn(), role, position: square, has_moved: true };
    &&& after.pieces()@ == before.pieces()@.update(
        cell_index(square.row as int, square.column as int),
        Some(promoted),
    )
    &&& after.turn() == opponent(before.turn())
    &&& after.phase() == if after.pieces().has_king(after.turn()) {
        GameState::InProgress
    } else {
        GameState::GameOver
    }
}

/// A capture: when an accepted move lands on an occupied square, the mover is then
/// the one piece on that square and the board holds one piece fewer.
pub proof fn lemma_capture_removes_occupant(before: Game, after: Game, from: Seq<char>, to: Seq<char>)
    requires
        before.wf(),
        move_refusal(before, from, to) is None,
        move_applied(before, after, parse_square(from)->Some_0, parse_square(to)->Some_0),
        before.pieces().at(parse_square(to)->Some_0) is Some,
    ensures
        after.pieces().at(parse_square(to)->Some_0) == Some(
            moved_piece(
                before.pieces().at(parse_square(from)->Some_0)->Some_0,
                parse_square(to)->Some_0,
            ),
        ),
        after.pieces().count() + 1 == before.pieces().count(),
{
    let f = parse_square(from)->Some_0;
    let t = parse_square(to)->Some_0;
    let mover = before.pieces().at(f)->Some_0;
    lemma_reaches_available(mover, before.pieces(), t);
    let cells = before.pieces()@;
    let fi = cell_index(f.row as int, f.column as int);
    let ti = cell_index(t.row as int, t.column as int);
    lemma_occupied_count_update(cells, fi, None);
    lemma_occupied_count_update(cells.update(fi, None), ti, Some(moved_piece(mover, t)));
}

/// Whether `moves` holds `p`.
fn contains_square(moves: &Vec<Position>, p: Position) -> (r: bool)
    ensures
        r == moves@.contains(p),
{
    let mut i: usize = 0;
    while i < moves.len()
        invariant
            i <= moves@.len(),
            forall|j: int| 0 <= j < i ==> moves@[j] != p,
        decreases moves@.len() - i,
    {
        if moves[i] == p {
            return true;
        }
        i = i + 1;
    }
    false
}

/// A game: the board, the side to play and the phase.
pub struct Game {
    state: GameState,
    board: Board,
    active_color: Color,
}

impl Game {
    /// The current phase.
    pub closed spec fn phase(&self) -> GameState {
        self.state
    }

    /// The side to play.
    pub closed spec fn turn(&self) -> Color {
        self.active_color
    }

    /// The board.
    pub closed spec fn pieces(&self) -> Board {
        self.board
    }

    /// The board is well formed.
    pub open spec fn wf(&self) -> bool {
        self.pieces().wf()
    }

    /// Puts a piece of `color` and `role` that has not moved on `position`.
    fn insert_piece(board: &mut Board, color: Color, role: Role, position: Position)
        requires
            old(board).wf(),
            position.on_board(),
        ensures
            final(board).wf(),
            forall|p: Position|
                #[trigger] final(board).at(p) == if p == position {
                    Some(Piece { color, role, position, has_moved: false })
                } else {
                    old(board).at(p)
                },
    {
        board.place(Piece { color, role, position, has_moved: false });
    }

    /// A game at its start: every piece on its starting square, White to play.
    pub fn new() -> (g: Game)
        ensures
            g.wf(),
            g.phase() == GameState::InProgress,
            g.turn() == Color::White,
            forall|p: Position| #[trigger] g.pieces().at(p) == initial_occupant(p),
    {
        let mut board = Board::empty();
        let mut row: i8 = 1;
        while row <= 8
            invariant
                board.wf(),
                1 <= row <= 9,
                forall|p: Position|
                    #[trigger] board.at(p) == if p.row < row {
                        initial_occupant(p)
                    } else {
                        None
                    },
            decreases 9 - row,
        {
            let mut column: i8 = 1;
            while column <= 8
                invariant
                    board.wf(),
                    1 <= row <= 8,
                    1 <= column <= 9,
                    forall|p: Position|
                        #[trigger] board.at(p) == if p.row < row || (p.row == row && p.column
                            < column) {
                            initial_occupant(p)
                        } else {
                            None
                        },
                decreases 9 - column,
            {
                let color = if row <= 2 {
                    Color::White
                } else {
                    Color::Black
                };
                if row == 1 || row == 8 {
                    let role = if column == 1 || column == 8 {
                        Role::Rook
                    } else if column == 2 || column == 7 {
                        Role::Knight
                    } else if column == 3 || column == 6 {
                        Role::Bishop
                    } else if column == 4 {
                        Role::Queen
                    } else {
                        Role::King
                    };
                    Self::insert_piece(&mut board, color, role, Position { row, column });
                } else if row == 2 || row == 7 {
                    Self::insert_piece(&mut board, color, Role::Pawn, Position { row, column });
                }
                column = column + 1;
            }
            row = row + 1;
        }
        Game { state: GameState::InProgress, board, active_color: Color::White }
    }

    /// Moves the piece on the square coded `from` to the square coded `to`, and
    /// returns the phase that follows; a refused move returns why and changes nothing.
    pub fn try_move(&mut self, from: String, to: String) -> (r: Result<GameState, ChessError>)
        requires
            old(self).wf(),
        ensures
            final(self).wf(),
            move_refusal(*old(self), from@, to@) matches Some(e) ==> r == Err::<GameState, ChessError>(e)
                && *final(self) == *old(self),
            move_refusal(*old(self), from@, to@) is None ==> r == Ok::<GameState, ChessError>(
                final(self).phase(),
            ) && move_applied(
                *old(self),
                *final(self),
                parse_square(from@)->Some_0,
                parse_square(to@)->Some_0,
            ),
            r is Err ==> *final(self) == *old(self),
            old(self).phase() == GameState::PendingPromotion ==> r == Err::<GameState, ChessError>(
                ChessError::PromotionPending,
            ),
            r matches Ok(s) && s != GameState::PendingPromotion ==> final(self).turn() == opponent(
                old(self).turn(),
            ),
            r matches Ok(s) && s == GameState::PendingPromotion ==> final(self).turn() == old(
                self,
            ).turn(),
    {
        if self.state == GameState::GameOver {
            return Err(ChessError::GameAlreadyOver);
        }
        if self.state == GameState::PendingPromotion {
            return Err(ChessError::PromotionPending);
        }
        let from_square = match Position::new(from) {
            Some(p) => p,
            None => return Err(ChessError::ParseError),
        };
        let to_square = match Position::new(to) {
            Some(p) => p,
            None => return Err(ChessError::ParseError),
        };
        let piece = match self.board.get(from_square) {
            Some(p) => p,
            None => return Err(ChessError::NoPieceAtSquare),
        };
        if piece.color != self.active_color {
            return Err(ChessError::WrongTurn);
        }
        let moves = match piece.get_possible_moves(&self.board) {
            Some(m) => m,
            None => return Err(ChessError::IllegalMove),
        };
        if !contains_square(&moves, to_square) {
            return Err(ChessError::IllegalMove);
        }
        proof {
            lemma_reaches_available(piece, self.board, to_square);
        }
        let ghost before = self.board@;
        self.board.clear(to_square);
        self.board.clear(from_square);
        let moved = Piece { position: to_square, has_moved: true, ..piece };
        self.board.place(moved);
        proof {
            let f = cell_index(from_square.row as int, from_square.column as int);
            let t = cell_index(to_square.row as int, to_square.column as int);
            assert(self.board@ =~= before.update(f, None).update(t, Some(moved)));
        }
        if moved.role == Role::Pawn && (to_square.row == 1 || to_square.row == 8) {
            self.state = GameState::PendingPromotion;
            return Ok(self.state);
        }
        self.active_color = self.active_color.opposite();
        if !self.board.has_king_of(self.active_color) {
            self.state = GameState::GameOver;
        }
        Ok(self.state)
    }

    /// Moves the piece on the square coded `from` to the square coded `to` when the
    /// move is allowed, and returns the phase of the game afterwards, which a refused
    /// move leaves as it was. Always `Some`.
    pub fn make_move(&mut self, from: String, to: String) -> (r: Option<GameState>)
        requires
            old(self).wf(),
        ensures
            final(self).wf(),
            r == Some(final(self).phase()),
            move_refusal(*old(self), from@, to@) is Some ==> *final(self) == *old(self),
            move_refusal(*old(self), from@, to@) is None ==> move_applied(
                *old(self),
                *final(self),
                parse_square(from@)->Some_0,
                parse_square(to@)->Some_0,
            ),
            old(self).phase() == GameState::PendingPromotion ==> r == Some(
                GameState::PendingPromotion,
            ) && *final(self) == *old(self),
    {
        let _ = self.try_move(from, to);
        Some(self.state)
    }

    /// Promotes the pawn waiting on the square coded `square` to a piece of `role`.
    /// The promotion completes the pawn's move: the turn passes to the other side, and
    /// the game is over if that side has no king left. A refused request returns why
    /// and changes nothing.
    pub fn set_promotion(&mut self, square: String, role: Role) -> (r: Result<(), ChessError>)
        requires
            old(self).wf(),
        ensures
            final(self).wf(),
            promotion_refusal(*old(self), square@, role) matches Some(e) ==> r == Err::<
                (),
                ChessError,
            >(e) && *final(self) == *old(self),
            promotion_refusal(*old(self), square@, role) is None ==> r is Ok && promotion_applied(
                *old(self),
                *final(self),
                parse_square(square@)->Some_0,
                role,
            ),
    {
        if self.state != GameState::PendingPromotion || role == Role::Pawn || role == Role::King {
            return Err(ChessError::InvalidPromotionRequest);
        }
        let target = match Position::new(square) {
            Some(p) => p,
            None => return Err(ChessError::ParseError),
        };
        let pawn = match self.board.get(target) {
            Some(p) => p,
            None => return Err(ChessError::InvalidPromotionRequest),
        };
        if pawn.color != self.active_color || pawn.role != Role::Pawn || (pawn.position.row != 1
            && pawn.position.row != 8) {
            return Err(ChessError::InvalidPromotionRequest);
        }
        self.board.place(Piece { color: pawn.color, role, position: target, has_moved: true });
        self.active_color = self.active_color.opposite();
        if self.board.has_king_of(self.active_color) {
            self.state = GameState::InProgress;
        } else {
            self.state = GameState::GameOver;
        }
        Ok(())
    }

    /// The current phase.
    pub fn get_game_state(&self) -> (r: GameState)
        ensures
            r == self.phase(),
    {
        self.state
    }

    /// The side to play.
    pub fn active_color(&self) -> (r: Color)
        ensures
            r == self.turn(),
    {
        self.active_color
    }

    /// The board, for reading.
    pub fn board(&self) -> (r: &Board)
        ensures
            *r == self.pieces(),
    {
        &self.board
    }

    /// The squares the piece on the square coded `position` can move to, in no
    /// particular order; `None` when the code is malformed or the square is empty.
    pub fn get_possible_moves(&self, position: String) -> (r: Option<Vec<Position>>)
        requires
            self.wf(),
        ensures
            parse_square(position@) is None ==> r is None,
            parse_square(position@) matches Some(square) ==> {
                match self.pieces().at(square) {
                    None => r is None,
                    Some(piece) => r matches Some(moves) && forall|p: Position|
                        #[trigger] moves@.contains(p) <==> reaches(piece, self.pieces(), p),
                }
            },
    {
        let square = match Position::new(position) {
            Some(p) => p,
            None => return None,
        };
        match self.board.get(square) {
            Some(piece) => piece.get_possible_moves(&self.board),
            None => None,
        }
    }
}

} // verus!
