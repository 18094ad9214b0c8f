use vstd::prelude::*;

verus! {

/// A square of the board. `column` is the file (1 for `a` up to 8 for `h`) and
/// `row` the rank (1 to 8). A value computed by stepping away from another square
/// may lie off the board; `is_valid` tells the two apart.
#[derive(Clone, Copy, Debug, PartialEq, Eq, Hash, Structural)]
pub struct Position {
    pub row: i8,
    pub column: i8,
}

/// The file letter of a square, `a` for column 1.
pub open spec fn file_char(column: int) -> char {
    (('a' as int) + column - 1) as char
}

/// The rank digit of a square, `1` for row 1.
pub open spec fn rank_char(row: int) -> char {
    (('0' as int) + row) as char
}

/// The two-character code of a square: its file letter, then its rank digit.
pub open spec fn square_code(p: Position) -> Seq<char> {
    seq![file_char(p.column as int), rank_char(p.row as int)]
}

/// Reads a two-character square code: a file letter `a`-`h`, then a rank digit `1`-`8`.
pub open spec fn parse_square(s: Seq<char>) -> Option<Position> {
    if s.len() == 2 && 'a' <= s[0] <= 'h' && '1' <= s[1] <= '8' {
        Some(Position {
            row: (s[1] as int - '0' as int) as i8,
            column: (s[0] as int - 'a' as int + 1) as i8,
        })
    } else {
        None
    }
}

impl Position {
    /// Whether the square lies within the 8x8 board.
    pub open spec fn on_board(self) -> bool {
        1 <= self.row <= 8 && 1 <= self.column <= 8
    }

    /// Parses a square code such as `e4`; `None` for any other text.
    pub fn new(pos: String) -> (r: Option<Position>)
        ensures
            r == parse_square(pos@),
    {
        let s = pos.as_str();
        if s.unicode_len() != 2 {
            return None;
        }
        let file = s.get_char(0);
        let rank = s.get_char(1);
        if 'a' <= file && file <= 'h' && '1' <= rank && rank <= '8' {
            Some(Position { row: (rank as u32 - '0' as u32) as i8, column: (file as u32 - 'a' as u32 + 1) as i8 })
        } else {
            None
        }
    }

    /// The square's code, such as `e4` for row 4 of column 5.
    pub fn to_string(self) -> (r: String)
        requires
            self.on_board(),
        ensures
            r@ == square_code(self),
            parse_square(r@) == Some(self),
    {
        let files = "abcdefgh";
        let ranks = "12345678";
        proof {
            reveal_strlit("abcdefgh");
            reveal_strlit("12345678");
        }
        let c = (self.column - 1) as usize;
        let k = (self.row - 1) as usize;
        let mut r = String::from_str(files.substring_ascii(c, c + 1));
        r.append(ranks.substring_ascii(k, k + 1));
        assert(r@ =~= square_code(self));
        r
    }

    /// Whether the square lies within the board.
    pub fn is_valid(self) -> (r: bool)
        ensures
            r == self.on_board(),
    {
        1 <= self.row && self.row <= 8 && 1 <= self.column && self.column <= 8
    }
}

} // verus!
