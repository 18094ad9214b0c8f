use chess::{Board, Color, Piece, Position, Role};

fn at(row: i8, column: i8) -> Position {
    Position { row, column }
}

fn piece(color: Color, role: Role, row: i8, column: i8, has_moved: bool) -> Piece {
    Piece { color, role, position: at(row, column), has_moved }
}

fn sorted_moves(p: &Piece, board: &Board) -> Vec<(i8, i8)> {
    let mut moves: Vec<(i8, i8)> = p
        .get_possible_moves(board)
        .unwrap()
        .iter()
        .map(|q| (q.row, q.column))
        .collect();
    moves.sort();
    moves.dedup();
    moves
}

#[test]
fn rook_stops_at_first_occupant() {
    let mut board = Board::empty();
    let rook = piece(Color::White, Role::Rook, 4, 4, true);
    board.place(rook);
    board.place(piece(Color::Black, Role::Knight, 4, 6, false));
    board.place(piece(Color::White, Role::Pawn, 6, 4, false));
    let moves = sorted_moves(&rook, &board);
    assert_eq!(
        moves,
        vec![(1, 4), (2, 4), (3, 4), (4, 1), (4, 2), (4, 3), (4, 5), (4, 6), (5, 4)]
    );
    assert!(!moves.contains(&(4, 7)));
    assert!(!moves.contains(&(6, 4)));
}

#[test]
fn bishop_stops_at_first_occupant() {
    let mut board = Board::empty();
    let bishop = piece(Color::Black, Role::Bishop, 1, 1, true);
    board.place(bishop);
    board.place(piece(Color::White, Role::Pawn, 3, 3, true));
    assert_eq!(sorted_moves(&bishop, &board), vec![(2, 2), (3, 3)]);
    board.place(piece(Color::Black, Role::Pawn, 3, 3, true));
    assert_eq!(sorted_moves(&bishop, &board), vec![(2, 2)]);
}

#[test]
fn queen_on_empty_board() {
    let mut board = Board::empty();
    let queen = piece(Color::White, Role::Queen, 4, 4, true);
    board.place(queen);
    let moves = sorted_moves(&queen, &board);
    assert_eq!(moves.len(), 27);
    assert!(moves.contains(&(8, 8)));
    assert!(moves.contains(&(1, 1)));
    assert!(moves.contains(&(7, 1)));
    assert!(moves.contains(&(1, 7)));
    assert!(moves.contains(&(4, 8)));
    assert!(!moves.contains(&(4, 4)));
    assert!(!moves.contains(&(6, 5)));
}

#[test]
fn king_moves_one_step() {
    let mut board = Board::empty();
    let king = piece(Color::White, Role::King, 1, 5, false);
    board.place(king);
    board.place(piece(Color::White, Role::Pawn, 2, 5, false));
    board.place(piece(Color::Black, Role::Pawn, 2, 6, true));
    assert_eq!(sorted_moves(&king, &board), vec![(1, 4), (1, 6), (2, 4), (2, 6)]);
}

#[test]
fn knight_jumps_over_pieces() {
    let mut board = Board::empty();
    let knight = piece(Color::White, Role::Knight, 1, 2, false);
    board.place(knight);
    board.place(piece(Color::White, Role::Pawn, 2, 2, false));
    board.place(piece(Color::White, Role::Pawn, 3, 3, false));
    board.place(piece(Color::Black, Role::Pawn, 3, 1, true));
    assert_eq!(sorted_moves(&knight, &board), vec![(2, 4), (3, 1)]);
    let center = piece(Color::Black, Role::Knight, 5, 5, true);
    let mut open = Board::empty();
    open.place(center);
    assert_eq!(
        sorted_moves(&center, &open),
        vec![(3, 4), (3, 6), (4, 3), (4, 7), (6, 3), (6, 7), (7, 4), (7, 6)]
    );
}

#[test]
fn pawn_double_step_only_before_first_move() {
    let mut board = Board::empty();
    let fresh = piece(Color::White, Role::Pawn, 2, 3, false);
    board.place(fresh);
    assert_eq!(sorted_moves(&fresh, &board), vec![(3, 3), (4, 3)]);
    let moved = piece(Color::White, Role::Pawn, 2, 3, true);
    board.place(moved);
    assert_eq!(sorted_moves(&moved, &board), vec![(3, 3)]);
    let black = piece(Color::Black, Role::Pawn, 7, 6, false);
    board.place(black);
    assert_eq!(sorted_moves(&black, &board), vec![(5, 6), (6, 6)]);
    let black_moved = piece(Color::Black, Role::Pawn, 6, 6, true);
    board.place(black_moved);
    assert_eq!(sorted_moves(&black_moved, &board), vec![(5, 6)]);
}

#[test]
fn pawn_blocked_and_capturing() {
    let mut board = Board::empty();
    let pawn = piece(Color::White, Role::Pawn, 2, 4, false);
    board.place(pawn);
    board.place(piece(Color::Black, Role::Knight, 3, 4, true));
    board.place(piece(Color::Black, Role::Bishop, 3, 5, true));
    board.place(piece(Color::White, Role::Bishop, 3, 3, true));
    assert_eq!(sorted_moves(&pawn, &board), vec![(3, 5)]);
    let mut second = Board::empty();
    let pawn = piece(Color::Black, Role::Pawn, 7, 1, false);
    second.place(pawn);
    second.place(piece(Color::White, Role::Rook, 5, 1, true));
    assert_eq!(sorted_moves(&pawn, &second), vec![(6, 1)]);
}

#[test]
fn pawn_on_last_rank_has_no_moves() {
    let mut board = Board::empty();
    let pawn = piece(Color::White, Role::Pawn, 8, 8, true);
    board.place(pawn);
    assert_eq!(sorted_moves(&pawn, &board), Vec::<(i8, i8)>::new());
}
