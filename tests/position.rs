use chess::Position;

#[test]
fn parse_square_codes() {
    assert_eq!(Position::new("e4".to_string()), Some(Position { row: 4, column: 5 }));
    assert_eq!(Position::new("a1".to_string()), Some(Position { row: 1, column: 1 }));
    assert_eq!(Position::new("h8".to_string()), Some(Position { row: 8, column: 8 }));
    assert_eq!(Position::new("i1".to_string()), None);
    assert_eq!(Position::new("a0".to_string()), None);
    assert_eq!(Position::new("a9".to_string()), None);
    assert_eq!(Position::new("E4".to_string()), None);
    assert_eq!(Position::new("e".to_string()), None);
    assert_eq!(Position::new("e44".to_string()), None);
    assert_eq!(Position::new("".to_string()), None);
    assert_eq!(Position::new("4e".to_string()), None);
    assert_eq!(Position::new("é4".to_string()), None);
}

#[test]
fn square_code_round_trip() {
    assert_eq!(Position { row: 4, column: 5 }.to_string(), "e4");
    assert_eq!(Position { row: 1, column: 8 }.to_string(), "h1");
    for row in 1..9 {
        for column in 1..9 {
            let p = Position { row, column };
            assert_eq!(Position::new(p.to_string()), Some(p));
        }
    }
}

#[test]
fn validity() {
    assert!(Position { row: 1, column: 1 }.is_valid());
    assert!(Position { row: 8, column: 8 }.is_valid());
    assert!(!Position { row: 0, column: 4 }.is_valid());
    assert!(!Position { row: 4, column: 9 }.is_valid());
    assert!(!Position { row: -1, column: -1 }.is_valid());
}
