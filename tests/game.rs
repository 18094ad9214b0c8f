use chess::{ChessError, Color, Game, GameState, Position, Role};

fn square(code: &str) -> Position {
    Position::new(code.to_string()).unwrap()
}

fn play(game: &mut Game, from: &str, to: &str) -> Result<GameState, ChessError> {
    game.try_move(from.to_string(), to.to_string())
}

fn snapshot(game: &Game) -> Vec<Option<(Color, Role, bool)>> {
    let mut cells = Vec::new();
    for row in 1..9 {
        for column in 1..9 {
            let piece = game.board().get(Position { row, column });
            cells.push(piece.map(|p| (p.color, p.role, p.has_moved)));
        }
    }
    cells
}

fn piece_count(game: &Game) -> usize {
    snapshot(game).iter().filter(|c| c.is_some()).count()
}

#[test]
fn it_works() {
    assert_eq!(2 + 2, 4);
}

#[test]
fn lib_it_works() {
    assert_eq!(2 + 2, 4);
}

#[test]
fn game_in_progress_after_init() {
    let game = Game::new();

    assert_eq!(game.get_game_state(), GameState::InProgress);
}

#[test]
fn lib_game_in_progress_after_init() {
    let mut game = Game::new();

    game.make_move("b1".to_string(), "a3".to_string());
    game.make_move("b8".to_string(), "a6".to_string());
    game.make_move("c2".to_string(), "c3".to_string());
    game.make_move("a6".to_string(), "c5".to_string());
    game.make_move("d2".to_string(), "d4".to_string());
    game.make_move("d7".to_string(), "d5".to_string());
    game.make_move("d4".to_string(), "c5".to_string());

    println!("{:?}", game.get_possible_moves("d5".to_string()));

    assert_eq!(game.get_game_state(), GameState::InProgress);
}

#[test]
fn initial_layout() {
    let game = Game::new();
    assert_eq!(game.get_game_state(), GameState::InProgress);
    assert_eq!(game.active_color(), Color::White);
    let back = [
        Role::Rook,
        Role::Knight,
        Role::Bishop,
        Role::Queen,
        Role::King,
        Role::Bishop,
        Role::Knight,
        Role::Rook,
    ];
    for column in 1..9i8 {
        let role = back[(column - 1) as usize];
        let white = game.board().get(Position { row: 1, column }).unwrap();
        assert_eq!((white.color, white.role, white.has_moved), (Color::White, role, false));
        assert_eq!(white.position, Position { row: 1, column });
        let black = game.board().get(Position { row: 8, column }).unwrap();
        assert_eq!((black.color, black.role), (Color::Black, role));
        let pawn = game.board().get(Position { row: 2, column }).unwrap();
        assert_eq!((pawn.color, pawn.role), (Color::White, Role::Pawn));
        let pawn = game.board().get(Position { row: 7, column }).unwrap();
        assert_eq!((pawn.color, pawn.role), (Color::Black, Role::Pawn));
        for row in 3..7 {
            assert!(game.board().get(Position { row, column }).is_none());
        }
    }
    assert_eq!(game.board().get(square("e1")).unwrap().role, Role::King);
    assert_eq!(game.board().get(square("d8")).unwrap().role, Role::Queen);
    assert_eq!(piece_count(&game), 32);
}

#[test]
fn turns_alternate() {
    let mut game = Game::new();
    let moves = [("e2", "e4"), ("e7", "e5"), ("g1", "f3"), ("b8", "c6"), ("f1", "c4"), ("g8", "f6")];
    let mut expected = Color::White;
    for (from, to) in moves {
        assert_eq!(game.active_color(), expected);
        assert_eq!(play(&mut game, from, to), Ok(GameState::InProgress));
        expected = if expected == Color::White { Color::Black } else { Color::White };
        assert_eq!(game.active_color(), expected);
    }
}

#[test]
fn opening_pawn_moves() {
    let mut game = Game::new();
    assert_eq!(game.make_move("e2".to_string(), "e4".to_string()), Some(GameState::InProgress));
    assert_eq!(game.active_color(), Color::Black);
    assert_eq!(game.make_move("e7".to_string(), "e5".to_string()), Some(GameState::InProgress));
    assert_eq!(game.active_color(), Color::White);
    let pawn = game.board().get(square("e4")).unwrap();
    assert!(pawn.has_moved);
    let moves = game.get_possible_moves("e4".to_string()).unwrap();
    assert!(moves.is_empty());
    assert!(game.board().get(square("e2")).is_none());
}

#[test]
fn capture_removes_occupant() {
    let mut game = Game::new();
    play(&mut game, "e2", "e4").unwrap();
    play(&mut game, "d7", "d5").unwrap();
    assert_eq!(piece_count(&game), 32);
    assert_eq!(play(&mut game, "e4", "d5"), Ok(GameState::InProgress));
    assert_eq!(piece_count(&game), 31);
    let there = game.board().get(square("d5")).unwrap();
    assert_eq!((there.color, there.role, there.has_moved), (Color::White, Role::Pawn, true));
    assert_eq!(there.position, square("d5"));
    assert!(game.board().get(square("e4")).is_none());
}

#[test]
fn refused_moves_change_nothing() {
    let mut game = Game::new();
    play(&mut game, "e2", "e4").unwrap();
    let before = snapshot(&game);
    let cases = [
        ("e7", "z5", ChessError::ParseError),
        ("e77", "e5", ChessError::ParseError),
        ("", "e5", ChessError::ParseError),
        ("e5", "e4", ChessError::NoPieceAtSquare),
        ("d2", "d4", ChessError::WrongTurn),
        ("e7", "e4", ChessError::IllegalMove),
        ("d8", "d6", ChessError::IllegalMove),
        ("a8", "a7", ChessError::IllegalMove),
    ];
    for (from, to, error) in cases {
        assert_eq!(play(&mut game, from, to), Err(error));
        assert_eq!(snapshot(&game), before);
        assert_eq!(game.active_color(), Color::Black);
        assert_eq!(game.get_game_state(), GameState::InProgress);
        assert_eq!(game.make_move(from.to_string(), to.to_string()), Some(GameState::InProgress));
        assert_eq!(snapshot(&game), before);
        assert_eq!(game.active_color(), Color::Black);
    }
}

fn reach_promotion(game: &mut Game) {
    let moves = [
        ("b2", "b4"),
        ("a7", "a5"),
        ("b4", "a5"),
        ("b7", "b6"),
        ("a5", "b6"),
        ("h7", "h6"),
        ("b6", "c7"),
        ("h6", "h5"),
    ];
    for (from, to) in moves {
        assert_eq!(play(game, from, to), Ok(GameState::InProgress));
    }
    assert_eq!(play(game, "c7", "b8"), Ok(GameState::PendingPromotion));
}

#[test]
fn promotion_after_captures() {
    let mut game = Game::new();
    reach_promotion(&mut game);
    assert_eq!(game.get_game_state(), GameState::PendingPromotion);
    assert_eq!(game.active_color(), Color::White);
    assert_eq!(game.set_promotion("b8".to_string(), Role::Queen), Ok(()));
    let queen = game.board().get(square("b8")).unwrap();
    assert_eq!((queen.color, queen.role, queen.has_moved), (Color::White, Role::Queen, true));
    assert_eq!(game.get_game_state(), GameState::InProgress);
    assert_eq!(game.active_color(), Color::Black);
    assert_eq!(play(&mut game, "g8", "f6"), Ok(GameState::InProgress));
}

#[test]
fn promotion_blocks_moves() {
    let mut game = Game::new();
    reach_promotion(&mut game);
    let before = snapshot(&game);
    assert_eq!(play(&mut game, "g8", "f6"), Err(ChessError::PromotionPending));
    assert_eq!(play(&mut game, "e2", "e4"), Err(ChessError::PromotionPending));
    assert_eq!(game.make_move("g8".to_string(), "f6".to_string()), Some(GameState::PendingPromotion));
    assert_eq!(snapshot(&game), before);
    assert_eq!(game.get_game_state(), GameState::PendingPromotion);
}

#[test]
fn refused_promotions() {
    let mut game = Game::new();
    assert_eq!(
        game.set_promotion("e2".to_string(), Role::Queen),
        Err(ChessError::InvalidPromotionRequest)
    );
    reach_promotion(&mut game);
    let before = snapshot(&game);
    let cases = [
        ("b8", Role::Pawn, ChessError::InvalidPromotionRequest),
        ("b8", Role::King, ChessError::InvalidPromotionRequest),
        ("b9", Role::Queen, ChessError::ParseError),
        ("a8", Role::Queen, ChessError::InvalidPromotionRequest),
        ("e2", Role::Queen, ChessError::InvalidPromotionRequest),
        ("e4", Role::Queen, ChessError::InvalidPromotionRequest),
    ];
    for (code, role, error) in cases {
        assert_eq!(game.set_promotion(code.to_string(), role), Err(error));
        assert_eq!(snapshot(&game), before);
        assert_eq!(game.get_game_state(), GameState::PendingPromotion);
        assert_eq!(game.active_color(), Color::White);
    }
    assert_eq!(game.set_promotion("b8".to_string(), Role::Knight), Ok(()));
    assert_eq!(game.board().get(square("b8")).unwrap().role, Role::Knight);
}

#[test]
fn king_capture_ends_game() {
    let mut game = Game::new();
    for (from, to) in [("e2", "e4"), ("f7", "f6"), ("d1", "h5"), ("g7", "g5")] {
        assert_eq!(play(&mut game, from, to), Ok(GameState::InProgress));
    }
    assert_eq!(play(&mut game, "h5", "e8"), Ok(GameState::GameOver));
    assert_eq!(game.get_game_state(), GameState::GameOver);
    let before = snapshot(&game);
    assert_eq!(play(&mut game, "d8", "e7"), Err(ChessError::GameAlreadyOver));
    assert_eq!(game.make_move("a7".to_string(), "a6".to_string()), Some(GameState::GameOver));
    assert_eq!(snapshot(&game), before);
    assert_eq!(
        game.set_promotion("e8".to_string(), Role::Queen),
        Err(ChessError::InvalidPromotionRequest)
    );
}

#[test]
fn possible_moves_of_a_square() {
    let game = Game::new();
    assert_eq!(game.get_possible_moves("e5".to_string()), None);
    assert_eq!(game.get_possible_moves("i2".to_string()), None);
    let mut knight = game.get_possible_moves("g1".to_string()).unwrap();
    knight.sort_by_key(|p| (p.row, p.column));
    assert_eq!(knight, vec![square("f3"), square("h3")]);
    let mut pawn = game.get_possible_moves("e7".to_string()).unwrap();
    pawn.sort_by_key(|p| (p.row, p.column));
    assert_eq!(pawn, vec![square("e5"), square("e6")]);
    assert_eq!(game.get_possible_moves("a1".to_string()), Some(vec![]));
}
