use vstd::prelude::*;

use crate::board::{on_board, Board};
use crate::position::Position;

verus! {

/// The two sides.
#[derive(Clone, Copy, Debug, PartialEq, Eq, Hash, Structural)]
pub enum Color {
    White,
    Black,
}

/// The kind of a piece, which decides how it moves.
#[derive(Clone, Copy, Debug, PartialEq, Eq, Hash, Structural)]
pub enum Role {
    King,
    Queen,
    Rook,
    Bishop,
    Knight,
    Pawn,
}

/// A piece on the board: its side, its kind, the square it stands on, and
/// whether it has moved since the game began.
#[derive(Clone, Copy, Debug, PartialEq, Eq, Structural)]
pub struct Piece {
    pub color: Color,
    pub role: Role,
    pub position: Position,
    pub has_moved: bool,
}

/// The side that plays after `c`.
pub open spec fn opponent(c: Color) -> Color {
    match c {
        Color::White => Color::Black,
        Color::Black => Color::White,
    }
}

impl Color {
    /// The other side.
    pub fn opposite(self) -> (r: Color)
        ensures
            r == opponent(self),
    {
        match self {
            Color::White => Color::Black,
            Color::Black => Color::White,
        }
    }
}

/// Whether `piece` may end a move on `dest`: the square is on the board and
/// holds no piece of the mover's side.
pub open spec fn available(piece: Piece, board: Board, dest: Position) -> bool {
    &&& dest.on_board()
    &&& match board.at(dest) {
        None => true,
        Some(other) => other.color != piece.color,
    }
}

/// `p` is `s` steps from `from` in direction (dr, dc).
pub open spec fn at_step(from: Position, dr: int, dc: int, s: int, p: Position) -> bool {
    p.row == from.row + dr * s && p.column == from.column + dc * s
}

/// The square `t` steps from `from` in direction (dr, dc) is on the board and empty.
pub open spec fn open_step(board: Board, from: Position, dr: int, dc: int, t: int) -> bool {
    &&& on_board(from.row + dr * t, from.column + dc * t)
    &&& board.occupant(from.row + dr * t, from.column + dc * t) is None
}

/// Every square strictly before step `s` in direction (dr, dc) is on the board and empty.
pub open spec fn ray_clear(board: Board, from: Position, dr: int, dc: int, s: int) -> bool {
    forall|t: int| 1 <= t < s ==> #[trigger] open_step(board, from, dr, dc, t)
}

/// A piece that slides in direction (dr, dc) for at most `max` steps reaches `dest`:
/// `dest` lies on that ray, every square before it is empty, and `dest` is available.
pub open spec fn ray_reaches(
    piece: Piece,
    board: Board,
    dr: int,
    dc: int,
    max: int,
    dest: Position,
) -> bool {
    exists|s: int|
        1 <= s <= max && #[trigger] ray_clear(board, piece.position, dr, dc, s) && at_step(
            piece.position,
            dr,
            dc,
            s,
            dest,
        ) && available(piece, board, dest)
}

/// Reached along a row or a column within `max` steps.
pub open spec fn straight_reaches(piece: Piece, board: Board, max: int, dest: Position) -> bool {
    ||| ray_reaches(piece, board, 1, 0, max, dest)
    ||| ray_reaches(piece, board, -1, 0, max, dest)
    ||| ray_reaches(piece, board, 0, 1, max, dest)
    ||| ray_reaches(piece, board, 0, -1, max, dest)
}

/// Reached along a diagonal within `max` steps.
pub open spec fn diagonal_reaches(piece: Piece, board: Board, max: int, dest: Position) -> bool {
    ||| ray_reaches(piece, board, 1, 1, max, dest)
    ||| ray_reaches(piece, board, 1, -1, max, dest)
    ||| ray_reaches(piece, board, -1, 1, max, dest)
    ||| ray_reaches(piece, board, -1, -1, max, dest)
}

/// A knight's jump: two squares one way and one square the other.
pub open spec fn knight_jump(dr: int, dc: int) -> bool {
    ||| (dr == 1 || dr == -1) && (dc == 2 || dc == -2)
    ||| (dr == 2 || dr == -2) && (dc == 1 || dc == -1)
}

/// Reached by a knight's jump.
pub open spec fn knight_reaches(piece: Piece, board: Board, dest: Position) -> bool {
    &&& knight_jump(dest.row - piece.position.row, dest.column - piece.position.column)
    &&& available(piece, board, dest)
}

/// The rank direction in which a pawn of side `c` advances.
pub open spec fn forward(c: Color) -> int {
    match c {
        Color::White => 1,
        Color::Black => -1,
    }
}

/// Reached by a pawn: one square ahead onto an empty square; two squares ahead
/// onto an empty square past an empty one, if the pawn has not moved; one square
/// diagonally ahead onto a piece of the other side.
pub open spec fn pawn_reaches(piece: Piece, board: Board, dest: Position) -> bool {
    let d = forward(piece.color);
    let row = piece.position.row as int;
    let column = piece.position.column as int;
    &&& dest.on_board()
    &&& {
        ||| dest.row == row + d && dest.column == column && board.at(dest) is None
        ||| !piece.has_moved && dest.row == row + 2 * d && dest.column == column
            && board.occupant(row + d, column) is None && board.at(dest) is None
        ||| dest.row == row + d && (dest.column == column + 1 || dest.column == column - 1)
            && board.at(dest) is Some && board.at(dest)->Some_0.color != piece.color
    }
}

/// Whether `piece` can move to `dest` on `board`, by the geometry of its role.
/// Whether the move would leave the mover's king open to capture is not considered.
pub open spec fn reaches(piece: Piece, board: Board, dest: Position) -> bool {
    match piece.role {
        Role::King => straight_reaches(piece, board, 1, dest) || diagonal_reaches(
            piece,
            board,
            1,
            dest,
        ),
        Role::Queen => straight_reaches(piece, board, 7, dest) || diagonal_reaches(
            piece,
            board,
            7,
            dest,
        ),
        Role::Rook => straight_reaches(piece, board, 7, dest),
        Role::Bishop => diagonal_reaches(piece, board, 7, dest),
        Role::Knight => knight_reaches(piece, board, dest),
        Role::Pawn => pawn_reaches(piece, board, dest),
    }
}

/// A square a piece can move to is available to it: on the board, and not held by
/// a piece of its own side.
pub proof fn lemma_reaches_available(piece: Piece, board: Board, dest: Position)
    requires
        reaches(piece, board, dest),
    ensures
        available(piece, board, dest),
{
}

/// One of the eight directions of a queen's move.
pub open spec fn unit_direction(dr: int, dc: int) -> bool {
    ||| dr == 1 && dc == 0
    ||| dr == -1 && dc == 0
    ||| dr == 0 && dc == 1
    ||| dr == 0 && dc == -1
    ||| dr == 1 && dc == 1
    ||| dr == 1 && dc == -1
    ||| dr == -1 && dc == 1
    ||| dr == -1 && dc == -1
}

/// A square lies on at most one ray from a given square, at one distance.
proof fn lemma_same_ray(from: Position, dr: int, dc: int, s: int, dr2: int, dc2: int, s2: int, p: Position)
    requires
        unit_direction(dr, dc),
        unit_direction(dr2, dc2),
        1 <= s,
        1 <= s2,
        at_step(from, dr, dc, s, p),
        at_step(from, dr2, dc2, s2, p),
    ensures
        dr == dr2,
        dc == dc2,
        s == s2,
{
}

/// A sliding piece (rook, bishop or queen) stops at the first occupied square of each
/// ray: every square it can move to along a ray has only empty squares before it, and
/// is either empty or held by the other side.
pub proof fn lemma_slide_blocked(piece: Piece, board: Board, dr: int, dc: int, s: int, dest: Position)
    requires
        piece.role == Role::Rook || piece.role == Role::Bishop || piece.role == Role::Queen,
        unit_direction(dr, dc),
        1 <= s,
        at_step(piece.position, dr, dc, s, dest),
        reaches(piece, board, dest),
    ensures
        ray_clear(board, piece.position, dr, dc, s),
        board.at(dest) matches Some(other) ==> other.color != piece.color,
{
    let from = piece.position;
    let (dr2, dc2) = if ray_reaches(piece, board, 1, 0, 7, dest) {
        (1int, 0int)
    } else if ray_reaches(piece, board, -1, 0, 7, dest) {
        (-1int, 0int)
    } else if ray_reaches(piece, board, 0, 1, 7, dest) {
        (0int, 1int)
    } else if ray_reaches(piece, board, 0, -1, 7, dest) {
        (0int, -1int)
    } else if ray_reaches(piece, board, 1, 1, 7, dest) {
        (1int, 1int)
    } else if ray_reaches(piece, board, 1, -1, 7, dest) {
        (1int, -1int)
    } else if ray_reaches(piece, board, -1, 1, 7, dest) {
        (-1int, 1int)
    } else {
        (-1int, -1int)
    };
    assert(ray_reaches(piece, board, dr2, dc2, 7, dest));
    let s2 = choose|s2: int|
        1 <= s2 <= 7 && #[trigger] ray_clear(board, from, dr2, dc2, s2) && at_step(
            from,
            dr2,
            dc2,
            s2,
            dest,
        ) && available(piece, board, dest);
    lemma_same_ray(from, dr, dc, s, dr2, dc2, s2, dest);
}

/// A pawn that has moved never advances two squares.
pub proof fn lemma_moved_pawn_no_double_step(piece: Piece, board: Board, dest: Position)
    requires
        piece.role == Role::Pawn,
        piece.has_moved,
        dest.column == piece.position.column,
        dest.row == piece.position.row + 2 * forward(piece.color),
    ensures
        !reaches(piece, board, dest),
{
}

/// One step further along a ray: `dr * (s + 1)` is `dr * s + dr`, and stays within `s + 1` of 0.
proof fn lemma_step(dr: int, s: int)
    requires
        -1 <= dr <= 1,
        0 <= s,
    ensures
        dr * (s + 1) == dr * s + dr,
        -(s + 1) <= dr * (s + 1) <= s + 1,
        -s <= dr * s <= s,
{
    assert(dr * (s + 1) == dr * s + dr) by (nonlinear_arith);
    assert(-s <= dr * s <= s) by (nonlinear_arith)
        requires
            -1 <= dr <= 1,
            0 <= s,
    ;
    assert(-(s + 1) <= dr * (s + 1) <= s + 1) by (nonlinear_arith)
        requires
            -1 <= dr <= 1,
            0 <= s,
    ;
}

/// Reaching within `s` steps is reaching within `s - 1` steps or stopping exactly at step `s`.
proof fn lemma_ray_extend(piece: Piece, board: Board, dr: int, dc: int, s: int)
    requires
        1 <= s,
        ray_clear(board, piece.position, dr, dc, s),
    ensures
        forall|p: Position|
            ray_reaches(piece, board, dr, dc, s, p) <==> (ray_reaches(piece, board, dr, dc, s - 1, p)
                || (at_step(piece.position, dr, dc, s, p) && available(piece, board, p))),
{
    assert forall|p: Position|
        ray_reaches(piece, board, dr, dc, s, p) <==> (ray_reaches(piece, board, dr, dc, s - 1, p)
            || (at_step(piece.position, dr, dc, s, p) && available(piece, board, p))) by {
        if ray_reaches(piece, board, dr, dc, s, p) {
            let t = choose|t: int|
                1 <= t <= s && #[trigger] ray_clear(board, piece.position, dr, dc, t) && at_step(
                    piece.position,
                    dr,
                    dc,
                    t,
                    p,
                ) && available(piece, board, p);
            if t < s {
                assert(ray_reaches(piece, board, dr, dc, s - 1, p));
            }
        }
        if at_step(piece.position, dr, dc, s, p) && available(piece, board, p) {
            assert(ray_clear(board, piece.position, dr, dc, s));
        }
    }
}

/// A ray stops at a square that is off the board or occupied: no step beyond it is reached.
proof fn lemma_ray_stop(piece: Piece, board: Board, dr: int, dc: int, s: int, max: int)
    requires
        1 <= s <= max,
        !open_step(board, piece.position, dr, dc, s),
    ensures
        forall|p: Position|
            ray_reaches(piece, board, dr, dc, max, p) <==> ray_reaches(
                piece,
                board,
                dr,
                dc,
                s,
                p,
            ),
{
    assert forall|p: Position|
        ray_reaches(piece, board, dr, dc, max, p) <==> ray_reaches(
            piece,
            board,
            dr,
            dc,
            s,
            p,
        ) by {
        if ray_reaches(piece, board, dr, dc, max, p) {
            let t = choose|t: int|
                1 <= t <= max && #[trigger] ray_clear(board, piece.position, dr, dc, t) && at_step(
                    piece.position,
                    dr,
                    dc,
                    t,
                    p,
                ) && available(piece, board, p);
            if t > s {
                assert(open_step(board, piece.position, dr, dc, s));
            }
        }
    }
}

/// Pushing `x` adds exactly `x` to what a sequence contains.
proof fn lemma_push_contains(s: Seq<Position>, x: Position)
    ensures
        forall|p: Position| #[trigger] s.push(x).contains(p) <==> (s.contains(p) || p == x),
{
    assert forall|p: Position| #[trigger] s.push(x).contains(p) <==> (s.contains(p) || p == x) by {
        if s.push(x).contains(p) {
            let i = choose|i: int| 0 <= i < s.push(x).len() && s.push(x)[i] == p;
            if i < s.len() {
                assert(s[i] == p);
            }
        }
        if s.contains(p) {
            let i = choose|i: int| 0 <= i < s.len() && s[i] == p;
            assert(s.push(x)[i] == p);
        }
        if p == x {
            assert(s.push(x)[s.len() as int] == p);
        }
    }
}

/// Appends `p` to `moves`.
fn push_square(moves: &mut Vec<Position>, p: Position)
    ensures
        final(moves)@ == old(moves)@.push(p),
        forall|q: Position|
            #[trigger] final(moves)@.contains(q) <==> (old(moves)@.contains(q) || q == p),
{
    let ghost before = moves@;
    moves.push(p);
    proof {
        lemma_push_contains(before, p);
    }
}

/// Adds to `moves` the squares that a piece sliding from its square in direction
/// (dr, dc) reaches within `max_steps` steps.
fn walk_ray(piece: &Piece, board: &Board, dr: i8, dc: i8, max_steps: i8, moves: &mut Vec<Position>)
    requires
        board.wf(),
        piece.position.on_board(),
        -1 <= dr <= 1,
        -1 <= dc <= 1,
        0 <= max_steps <= 7,
    ensures
        forall|p: Position|
            #[trigger] final(moves)@.contains(p) <==> (old(moves)@.contains(p) || ray_reaches(
                *piece,
                *board,
                dr as int,
                dc as int,
                max_steps as int,
                p,
            )),
{
    let ghost from = piece.position;
    let mut step: i8 = 1;
    let mut row: i8 = piece.position.row + dr;
    let mut column: i8 = piece.position.column + dc;
    proof {
        lemma_step(dr as int, 0);
        lemma_step(dc as int, 0);
    }
    while step <= max_steps
        invariant
            board.wf(),
            from == piece.position,
            from.on_board(),
            -1 <= dr <= 1,
            -1 <= dc <= 1,
            0 <= max_steps <= 7,
            1 <= step <= max_steps + 1,
            row == from.row + dr * step,
            column == from.column + dc * step,
            -step <= dr * step <= step,
            -step <= dc * step <= step,
            ray_clear(*board, from, dr as int, dc as int, step as int),
            forall|p: Position|
                #[trigger] moves@.contains(p) <==> (old(moves)@.contains(p) || ray_reaches(
                    *piece,
                    *board,
                    dr as int,
                    dc as int,
                    step - 1,
                    p,
                )),
        decreases max_steps + 1 - step,
    {
        let target = Position { row, column };
        proof {
            lemma_ray_extend(*piece, *board, dr as int, dc as int, step as int);
        }
        if !target.is_valid() {
            proof {
                lemma_ray_stop(*piece, *board, dr as int, dc as int, step as int, max_steps as int);
            }
            return ;
        }
        match board.get(target) {
            None => {
                push_square(moves, target);
                proof {
                    assert(open_step(*board, from, dr as int, dc as int, step as int));
                    assert(ray_clear(*board, from, dr as int, dc as int, step + 1));
                    lemma_step(dr as int, step as int);
                    lemma_step(dc as int, step as int);
                }
                step = step + 1;
                row = row + dr;
                column = column + dc;
            },
            Some(other) => {
                proof {
                    lemma_ray_stop(*piece, *board, dr as int, dc as int, step as int, max_steps as int);
                }
                if other.color != piece.color {
                    push_square(moves, target);
                }
                return ;
            },
        }
    }
}

/// A concatenation contains what either part contains.
proof fn lemma_concat_contains(a: Seq<Position>, b: Seq<Position>)
    ensures
        forall|p: Position| #[trigger] (a + b).contains(p) <==> (a.contains(p) || b.contains(p)),
{
    assert forall|p: Position| #[trigger] (a + b).contains(p) <==> (a.contains(p) || b.contains(p)) by {
        if (a + b).contains(p) {
            let i = choose|i: int| 0 <= i < (a + b).len() && (a + b)[i] == p;
            if i < a.len() {
                assert(a[i] == p);
            } else {
                assert(b[i - a.len()] == p);
            }
        }
        if a.contains(p) {
            let i = choose|i: int| 0 <= i < a.len() && a[i] == p;
            assert((a + b)[i] == p);
        }
        if b.contains(p) {
            let i = choose|i: int| 0 <= i < b.len() && b[i] == p;
            assert((a + b)[a.len() + i] == p);
        }
    }
}

/// Adds the square (dr, dc) away from the piece to `moves` if it is available.
fn push_if_available(piece: &Piece, board: &Board, dr: i8, dc: i8, moves: &mut Vec<Position>)
    requires
        board.wf(),
        piece.position.on_board(),
        -2 <= dr <= 2,
        -2 <= dc <= 2,
    ensures
        forall|p: Position|
            #[trigger] final(moves)@.contains(p) <==> (old(moves)@.contains(p) || (p.row
                == piece.position.row + dr && p.column == piece.position.column + dc && available(
                *piece,
                *board,
                p,
            ))),
{
    let target = Position { row: piece.position.row + dr, column: piece.position.column + dc };
    if piece.position_available(target, board) {
        push_square(moves, target);
    }
}

/// The squares reached along rows and columns within `max_steps` steps.
fn get_possible_moves_straight(piece: &Piece, max_steps: i8, board: &Board) -> (moves: Vec<
    Position,
>)
    requires
        board.wf(),
        piece.position.on_board(),
        0 <= max_steps <= 7,
    ensures
        forall|p: Position|
            #[trigger] moves@.contains(p) <==> straight_reaches(*piece, *board, max_steps as int, p),
{
    let mut moves: Vec<Position> = Vec::new();
    walk_ray(piece, board, 1, 0, max_steps, &mut moves);
    walk_ray(piece, board, -1, 0, max_steps, &mut moves);
    walk_ray(piece, board, 0, 1, max_steps, &mut moves);
    walk_ray(piece, board, 0, -1, max_steps, &mut moves);
    moves
}

/// The squares reached along diagonals within `max_steps` steps.
fn get_possible_moves_diagonal(piece: &Piece, max_steps: i8, board: &Board) -> (moves: Vec<
    Position,
>)
    requires
        board.wf(),
        piece.position.on_board(),
        0 <= max_steps <= 7,
    ensures
        forall|p: Position|
            #[trigger] moves@.contains(p) <==> diagonal_reaches(*piece, *board, max_steps as int, p),
{
    let mut moves: Vec<Position> = Vec::new();
    walk_ray(piece, board, 1, 1, max_steps, &mut moves);
    walk_ray(piece, board, 1, -1, max_steps, &mut moves);
    walk_ray(piece, board, -1, 1, max_steps, &mut moves);
    walk_ray(piece, board, -1, -1, max_steps, &mut moves);
    moves
}

/// The squares a knight reaches by its eight jumps.
fn get_possible_moves_knight(piece: &Piece, board: &Board) -> (moves: Vec<Position>)
    requires
        board.wf(),
        piece.position.on_board(),
    ensures
        forall|p: Position| #[trigger] moves@.contains(p) <==> knight_reaches(*piece, *board, p),
{
    let mut moves: Vec<Position> = Vec::new();
    push_if_available(piece, board, -2, -1, &mut moves);
    push_if_available(piece, board, -1, -2, &mut moves);
    push_if_available(piece, board, -2, 1, &mut moves);
    push_if_available(piece, board, -1, 2, &mut moves);
    push_if_available(piece, board, 2, -1, &mut moves);
    push_if_available(piece, board, 1, -2, &mut moves);
    push_if_available(piece, board, 2, 1, &mut moves);
    push_if_available(piece, board, 1, 2, &mut moves);
    moves
}

/// The squares a pawn reaches: straight ahead onto empty squares, one or (before
/// its first move) two, and diagonally ahead onto pieces of the other side.
fn get_possible_moves_pawn(piece: &Piece, board: &Board) -> (moves: Vec<Position>)
    requires
        board.wf(),
        piece.position.on_board(),
    ensures
        forall|p: Position| #[trigger] moves@.contains(p) <==> pawn_reaches(*piece, *board, p),
{
    let mut moves: Vec<Position> = Vec::new();
    let direction: i8 = match piece.color {
        Color::White => 1,
        Color::Black => -1,
    };
    let row = piece.position.row;
    let column = piece.position.column;
    let ahead = Position { row: row + direction, column };
    if ahead.is_valid() && board.get(ahead).is_none() {
        push_square(&mut moves, ahead);
        if !piece.has_moved {
            let two_ahead = Position { row: row + 2 * direction, column };
            if two_ahead.is_valid() && board.get(two_ahead).is_none() {
                push_square(&mut moves, two_ahead);
            }
        }
    }
    let right = Position { row: row + direction, column: column + 1 };
    if right.is_valid() {
        if let Some(other) = board.get(right) {
            if other.color != piece.color {
                push_square(&mut moves, right);
            }
        }
    }
    let left = Position { row: row + direction, column: column - 1 };
    if left.is_valid() {
        if let Some(other) = board.get(left) {
            if other.color != piece.color {
                push_square(&mut moves, left);
            }
        }
    }
    moves
}

impl Piece {
    /// The squares this piece can move to on `board`, in no particular order. Moves
    /// that would leave the mover's own king open to capture are not filtered out.
    /// Always `Some`.
    pub fn get_possible_moves(&self, board: &Board) -> (r: Option<Vec<Position>>)
        requires
            board.wf(),
            self.position.on_board(),
        ensures
            r is Some,
            forall|p: Position|
                #[trigger] r->Some_0@.contains(p) <==> reaches(*self, *board, p),
    {
        let moves = match self.role {
            Role::King => {
                let mut moves = get_possible_moves_diagonal(self, 1, board);
                let mut more = get_possible_moves_straight(self, 1, board);
                let ghost (a, b) = (moves@, more@);
                moves.append(&mut more);
                proof {
                    lemma_concat_contains(a, b);
                }
                moves
            },
            Role::Queen => {
                let mut moves = get_possible_moves_diagonal(self, 7, board);
                let mut more = get_possible_moves_straight(self, 7, board);
                let ghost (a, b) = (moves@, more@);
                moves.append(&mut more);
                proof {
                    lemma_concat_contains(a, b);
                }
                moves
            },
            Role::Rook => get_possible_moves_straight(self, 7, board),
            Role::Bishop => get_possible_moves_diagonal(self, 7, board),
            Role::Knight => get_possible_moves_knight(self, board),
            Role::Pawn => get_possible_moves_pawn(self, board),
        };
        Some(moves)
    }

    /// Whether this piece may end a move on `position`: on the board and not
    /// held by a piece of its own side.
    fn position_available(&self, position: Position, board: &Board) -> (r: bool)
        requires
            board.wf(),
        ensures
            r == available(*self, *board, position),
    {
        if !position.is_valid() {
            return false;
        }
        match board.get(position) {
            Some(other) => other.color != self.color,
            None => true,
        }
    }
}

} // verus!
