use vstd::prelude::*;

verus! {

/// Name of the engine.
pub const NAME: &'static str = "Crust 1.0";

/// Number of squares of the padded board: ten files by twelve ranks.
pub const BOARD_SQUARE_NUM: usize = 120;

/// Number of files, and of ranks, of the playable board.
pub const ROW_SIZE: usize = 8;

/// Number of playable squares.
pub const INNER_SQUARE_NUM: usize = 64;

/// Largest number of half-moves a game history can hold.
pub const MAX_GAME_MOVES: usize = 2048;

/// Capacity of a move list.
pub const MAX_POSITION_MOVES: usize = 256;

/// Padded index that stands for "no square".
pub const NO_SQUARE: u8 = 99;

/// Padded index that stands for a square outside the playable area.
pub const OFF_BOARD: u8 = 100;

/// Dense index that stands for a square outside the playable area.
pub const OFF_DENSE: u8 = 65;

/// The standard starting position.
pub const START_FEN: &'static str = "rnbqkbnr/pppppppp/8/8/8/8/PPPPPPPP/RNBQKBNR w KQkq - 0 1";

/// Castling rights, one bit each.
pub const WHITE_KING_CASTLING: u8 = 1;
pub const WHITE_QUEEN_CASTLING: u8 = 2;
pub const BLACK_KING_CASTLING: u8 = 4;
pub const BLACK_QUEEN_CASTLING: u8 = 8;

/// Move flag: the capture is en passant.
pub const MOVE_FLAG_ENPASSANT: u32 = 0x40000;
/// Move flag: a pawn advances two squares from its home rank.
pub const MOVE_FLAG_PAWN_START: u32 = 0x80000;
/// Move flag: the king castles.
pub const MOVE_FLAG_CASTLE: u32 = 0x1000000;

/// The move that is no move.
pub const NO_MOVE: u32 = 0;

#[derive(Clone, Copy, Debug, PartialEq, Eq, Structural)]
pub enum PieceType {
    Empty,
    WhitePawn,
    WhiteKnight,
    WhiteBishop,
    WhiteRook,
    WhiteQueen,
    WhiteKing,
    BlackPawn,
    BlackKnight,
    BlackBishop,
    BlackRook,
    BlackQueen,
    BlackKing,
    /// What the padded board holds outside the playable area.
    OffBoard,
}

#[derive(Clone, Copy, Debug, PartialEq, Eq, Structural)]
pub enum Colours {
    White,
    Black,
    Both,
}

#[derive(Clone, Copy, Debug, PartialEq, Eq, Structural)]
pub enum GameModes {
    /// The engine speaks the UCI protocol.
    UciMode,
    /// The engine reads its input from the console.
    ConsoleMode,
}

/// The eight ranks, and the rank of a square outside the playable area.
#[derive(Clone, Copy, Debug, PartialEq, Eq, Structural)]
pub enum Ranks {
    Rank1,
    Rank2,
    Rank3,
    Rank4,
    Rank5,
    Rank6,
    Rank7,
    Rank8,
    RankNone,
}

/// The eight files, and the file of a square outside the playable area.
#[derive(Clone, Copy, Debug, PartialEq, Eq, Structural)]
pub enum Files {
    FileA,
    FileB,
    FileC,
    FileD,
    FileE,
    FileF,
    FileG,
    FileH,
    FileNone,
}

/// The playable squares by name, and the two values that name no playable square.
#[derive(Clone, Copy, Debug, PartialEq, Eq, Structural)]
pub enum Squares {
    A1,
    B1,
    C1,
    D1,
    E1,
    F1,
    G1,
    H1,
    A2,
    B2,
    C2,
    D2,
    E2,
    F2,
    G2,
    H2,
    A3,
    B3,
    C3,
    D3,
    E3,
    F3,
    G3,
    H3,
    A4,
    B4,
    C4,
    D4,
    E4,
    F4,
    G4,
    H4,
    A5,
    B5,
    C5,
    D5,
    E5,
    F5,
    G5,
    H5,
    A6,
    B6,
    C6,
    D6,
    E6,
    F6,
    G6,
    H6,
    A7,
    B7,
    C7,
    D7,
    E7,
    F7,
    G7,
    H7,
    A8,
    B8,
    C8,
    D8,
    E8,
    F8,
    G8,
    H8,
    NoSquare,
    OffBoard,
}

impl Files {
    /// The file's number, from 0 for the a-file; 8 for `FileNone`.
    pub open spec fn spec_index(self) -> u8 {
        match self {
            Files::FileA => 0,
            Files::FileB => 1,
            Files::FileC => 2,
            Files::FileD => 3,
            Files::FileE => 4,
            Files::FileF => 5,
            Files::FileG => 6,
            Files::FileH => 7,
            Files::FileNone => 8,
        }
    }

    #[verifier::when_used_as_spec(spec_index)]
    pub fn index(self) -> (i: u8)
        ensures
            i == self.spec_index(),
    {
        match self {
            Files::FileA => 0,
            Files::FileB => 1,
            Files::FileC => 2,
            Files::FileD => 3,
            Files::FileE => 4,
            Files::FileF => 5,
            Files::FileG => 6,
            Files::FileH => 7,
            Files::FileNone => 8,
        }
    }

    /// The file with a number; a number above 7 gives `FileNone`.
    pub open spec fn spec_from_index(i: u8) -> Files {
        if i == 0 {
            Files::FileA
        } else if i == 1 {
            Files::FileB
        } else if i == 2 {
            Files::FileC
        } else if i == 3 {
            Files::FileD
        } else if i == 4 {
            Files::FileE
        } else if i == 5 {
            Files::FileF
        } else if i == 6 {
            Files::FileG
        } else if i == 7 {
            Files::FileH
        } else {
            Files::FileNone
        }
    }

    #[verifier::when_used_as_spec(spec_from_index)]
    pub fn from_index(i: u8) -> (v: Files)
        ensures
            v == Files::spec_from_index(i),
    {
        if i == 0 {
            Files::FileA
        } else if i == 1 {
            Files::FileB
        } else if i == 2 {
            Files::FileC
        } else if i == 3 {
            Files::FileD
        } else if i == 4 {
            Files::FileE
        } else if i == 5 {
            Files::FileF
        } else if i == 6 {
            Files::FileG
        } else if i == 7 {
            Files::FileH
        } else {
            Files::FileNone
        }
    }
}

impl Ranks {
    /// The rank's number, from 0 for the first rank; 8 for `RankNone`.
    pub open spec fn spec_index(self) -> u8 {
        match self {
            Ranks::Rank1 => 0,
            Ranks::Rank2 => 1,
            Ranks::Rank3 => 2,
            Ranks::Rank4 => 3,
            Ranks::Rank5 => 4,
            Ranks::Rank6 => 5,
            Ranks::Rank7 => 6,
            Ranks::Rank8 => 7,
            Ranks::RankNone => 8,
        }
    }

    #[verifier::when_used_as_spec(spec_index)]
    pub fn index(self) -> (i: u8)
        ensures
            i == self.spec_index(),
    {
        match self {
            Ranks::Rank1 => 0,
            Ranks::Rank2 => 1,
            Ranks::Rank3 => 2,
            Ranks::Rank4 => 3,
            Ranks::Rank5 => 4,
            Ranks::Rank6 => 5,
            Ranks::Rank7 => 6,
            Ranks::Rank8 => 7,
            Ranks::RankNone => 8,
        }
    }

    /// The rank with a number; a number above 7 gives `RankNone`.
    pub open spec fn spec_from_index(i: u8) -> Ranks {
        if i == 0 {
            Ranks::Rank1
        } else if i == 1 {
            Ranks::Rank2
        } else if i == 2 {
            Ranks::Rank3
        } else if i == 3 {
            Ranks::Rank4
        } else if i == 4 {
            Ranks::Rank5
        } else if i == 5 {
            Ranks::Rank6
        } else if i == 6 {
            Ranks::Rank7
        } else if i == 7 {
            Ranks::Rank8
        } else {
            Ranks::RankNone
        }
    }

    #[verifier::when_used_as_spec(spec_from_index)]
    pub fn from_index(i: u8) -> (v: Ranks)
        ensures
            v == Ranks::spec_from_index(i),
    {
        if i == 0 {
            Ranks::Rank1
        } else if i == 1 {
            Ranks::Rank2
        } else if i == 2 {
            Ranks::Rank3
        } else if i == 3 {
            Ranks::Rank4
        } else if i == 4 {
            Ranks::Rank5
        } else if i == 5 {
            Ranks::Rank6
        } else if i == 6 {
            Ranks::Rank7
        } else if i == 7 {
            Ranks::Rank8
        } else {
            Ranks::RankNone
        }
    }
}

impl Squares {
    /// The square's padded index; 99 for `NoSquare`, 100 for `OffBoard`.
    pub open spec fn spec_index(self) -> u8 {
        match self {
            Squares::A1 => 21,
            Squares::B1 => 22,
            Squares::C1 => 23,
            Squares::D1 => 24,
            Squares::E1 => 25,
            Squares::F1 => 26,
            Squares::G1 => 27,
            Squares::H1 => 28,
            Squares::A2 => 31,
            Squares::B2 => 32,
            Squares::C2 => 33,
            Squares::D2 => 34,
            Squares::E2 => 35,
            Squares::F2 => 36,
            Squares::G2 => 37,
            Squares::H2 => 38,
            Squares::A3 => 41,
            Squares::B3 => 42,
            Squares::C3 => 43,
            Squares::D3 => 44,
            Squares::E3 => 45,
            Squares::F3 => 46,
            Squares::G3 => 47,
            Squares::H3 => 48,
            Squares::A4 => 51,
            Squares::B4 => 52,
            Squares::C4 => 53,
            Squares::D4 => 54,
            Squares::E4 => 55,
            Squares::F4 => 56,
            Squares::G4 => 57,
            Squares::H4 => 58,
            Squares::A5 => 61,
            Squares::B5 => 62,
            Squares::C5 => 63,
            Squares::D5 => 64,
            Squares::E5 => 65,
            Squares::F5 => 66,
            Squares::G5 => 67,
            Squares::H5 => 68,
            Squares::A6 => 71,
            Squares::B6 => 72,
            Squares::C6 => 73,
            Squares::D6 => 74,
            Squares::E6 => 75,
            Squares::F6 => 76,
            Squares::G6 => 77,
            Squares::H6 => 78,
            Squares::A7 => 81,
            Squares::B7 => 82,
            Squares::C7 => 83,
            Squares::D7 => 84,
            Squares::E7 => 85,
            Squares::F7 => 86,
            Squares::G7 => 87,
            Squares::H7 => 88,
            Squares::A8 => 91,
            Squares::B8 => 92,
            Squares::C8 => 93,
            Squares::D8 => 94,
            Squares::E8 => 95,
            Squares::F8 => 96,
            Squares::G8 => 97,
            Squares::H8 => 98,
            Squares::NoSquare => 99,
            Squares::OffBoard => 100,
        }
    }

    #[verifier::when_used_as_spec(spec_index)]
    pub fn index(self) -> (i: u8)
        ensures
            i == self.spec_index(),
    {
        match self {
            Squares::A1 => 21,
            Squares::B1 => 22,
            Squares::C1 => 23,
            Squares::D1 => 24,
            Squares::E1 => 25,
            Squares::F1 => 26,
            Squares::G1 => 27,
            Squares::H1 => 28,
            Squares::A2 => 31,
            Squares::B2 => 32,
            Squares::C2 => 33,
            Squares::D2 => 34,
            Squares::E2 => 35,
            Squares::F2 => 36,
            Squares::G2 => 37,
            Squares::H2 => 38,
            Squares::A3 => 41,
            Squares::B3 => 42,
            Squares::C3 => 43,
            Squares::D3 => 44,
            Squares::E3 => 45,
            Squares::F3 => 46,
            Squares::G3 => 47,
            Squares::H3 => 48,
            Squares::A4 => 51,
            Squares::B4 => 52,
            Squares::C4 => 53,
            Squares::D4 => 54,
            Squares::E4 => 55,
            Squares::F4 => 56,
            Squares::G4 => 57,
            Squares::H4 => 58,
            Squares::A5 => 61,
            Squares::B5 => 62,
            Squares::C5 => 63,
            Squares::D5 => 64,
            Squares::E5 => 65,
            Squares::F5 => 66,
            Squares::G5 => 67,
            Squares::H5 => 68,
            Squares::A6 => 71,
            Squares::B6 => 72,
            Squares::C6 => 73,
            Squares::D6 => 74,
            Squares::E6 => 75,
            Squares::F6 => 76,
            Squares::G6 => 77,
            Squares::H6 => 78,
            Squares::A7 => 81,
            Squares::B7 => 82,
            Squares::C7 => 83,
            Squares::D7 => 84,
            Squares::E7 => 85,
            Squares::F7 => 86,
            Squares::G7 => 87,
            Squares::H7 => 88,
            Squares::A8 => 91,
            Squares::B8 => 92,
            Squares::C8 => 93,
            Squares::D8 => 94,
            Squares::E8 => 95,
            Squares::F8 => 96,
            Squares::G8 => 97,
            Squares::H8 => 98,
            Squares::NoSquare => 99,
            Squares::OffBoard => 100,
        }
    }
}

/// True of the padded indices of the 64 playable squares.
pub open spec fn on_board(sq: int) -> bool {
    21 <= sq <= 98 && 1 <= sq % 10 <= 8
}

pub fn is_on_board(sq: u8) -> (b: bool)
    ensures
        b == on_board(sq as int),
{
    21 <= sq && sq <= 98 && 1 <= sq % 10 && sq % 10 <= 8
}

/// The padded index of the square on a file and a rank, both counted from 0.
pub open spec fn file_rank_to_square(file: int, rank: int) -> int {
    21 + file + rank * 10
}

/// Converts a file and a rank, both counted from 0, to a padded index.
pub fn FileRankToSquare(file: u8, rank: u8) -> (sq: u8)
    requires
        file_rank_to_square(file as int, rank as int) <= u8::MAX,
    ensures
        sq == file_rank_to_square(file as int, rank as int),
        file < 8 && rank < 8 ==> on_board(sq as int),
{
    (21 + file) + (rank * 10)
}

/// The file a padded index lies on.
pub open spec fn spec_file_of(sq: u8) -> Files {
    if on_board(sq as int) {
        Files::spec_from_index(((sq % 10) - 1) as u8)
    } else {
        Files::FileNone
    }
}

#[verifier::when_used_as_spec(spec_file_of)]
pub fn file_of(sq: u8) -> (f: Files)
    ensures
        f == spec_file_of(sq),
{
    if is_on_board(sq) {
        Files::from_index(sq % 10 - 1)
    } else {
        Files::FileNone
    }
}

/// The rank a padded index lies on.
pub open spec fn spec_rank_of(sq: u8) -> Ranks {
    if on_board(sq as int) {
        Ranks::spec_from_index(((sq / 10) - 2) as u8)
    } else {
        Ranks::RankNone
    }
}

#[verifier::when_used_as_spec(spec_rank_of)]
pub fn rank_of(sq: u8) -> (r: Ranks)
    ensures
        r == spec_rank_of(sq),
{
    if is_on_board(sq) {
        Ranks::from_index(sq / 10 - 2)
    } else {
        Ranks::RankNone
    }
}

/// A playable square is the square on its file and its rank.
pub proof fn lemma_file_rank_of_square(sq: u8)
    requires
        on_board(sq as int),
    ensures
        spec_file_of(sq).spec_index() < 8,
        spec_rank_of(sq).spec_index() < 8,
        file_rank_to_square(spec_file_of(sq).spec_index() as int, spec_rank_of(sq).spec_index() as int) == sq,
{
}

/// Each named square lies on the file and the rank of its name.
pub proof fn lemma_named_square_on_board(s: Squares)
    ensures
        s != Squares::NoSquare && s != Squares::OffBoard ==> on_board(s.spec_index() as int),
        s == Squares::NoSquare ==> s.spec_index() == NO_SQUARE,
        s == Squares::OffBoard ==> s.spec_index() == OFF_BOARD,
        !on_board(NO_SQUARE as int),
        !on_board(OFF_BOARD as int),
{
}

impl Colours {
    /// The other player; `Both` has no opponent and stays as it is.
    pub open spec fn spec_opponent(self) -> Colours {
        match self {
            Colours::White => Colours::Black,
            Colours::Black => Colours::White,
            Colours::Both => Colours::Both,
        }
    }

    #[verifier::when_used_as_spec(spec_opponent)]
    pub fn opponent(self) -> (c: Colours)
        ensures
            c == self.spec_opponent(),
    {
        match self {
            Colours::White => Colours::Black,
            Colours::Black => Colours::White,
            Colours::Both => Colours::Both,
        }
    }

    /// True of the two players, false of `Both`.
    pub open spec fn spec_is_player(self) -> bool {
        self != Colours::Both
    }

    #[verifier::when_used_as_spec(spec_is_player)]
    pub fn is_player(self) -> (b: bool)
        ensures
            b == self.spec_is_player(),
    {
        self != Colours::Both
    }
}

impl PieceType {
    /// The number that stands for the piece in a packed move.
    pub open spec fn spec_code(self) -> u32 {
        match self {
            PieceType::Empty => 0,
            PieceType::WhitePawn => 1,
            PieceType::WhiteKnight => 2,
            PieceType::WhiteBishop => 3,
            PieceType::WhiteRook => 4,
            PieceType::WhiteQueen => 5,
            PieceType::WhiteKing => 6,
            PieceType::BlackPawn => 7,
            PieceType::BlackKnight => 8,
            PieceType::BlackBishop => 9,
            PieceType::BlackRook => 10,
            PieceType::BlackQueen => 11,
            PieceType::BlackKing => 12,
            PieceType::OffBoard => 13,
        }
    }

    #[verifier::when_used_as_spec(spec_code)]
    pub fn code(self) -> (c: u32)
        ensures
            c == self.spec_code(),
    {
        match self {
            PieceType::Empty => 0,
            PieceType::WhitePawn => 1,
            PieceType::WhiteKnight => 2,
            PieceType::WhiteBishop => 3,
            PieceType::WhiteRook => 4,
            PieceType::WhiteQueen => 5,
            PieceType::WhiteKing => 6,
            PieceType::BlackPawn => 7,
            PieceType::BlackKnight => 8,
            PieceType::BlackBishop => 9,
            PieceType::BlackRook => 10,
            PieceType::BlackQueen => 11,
            PieceType::BlackKing => 12,
            PieceType::OffBoard => 13,
        }
    }

    /// The piece that a number stands for; a number above 12 stands for no piece of the game.
    pub open spec fn spec_from_code(c: u32) -> PieceType {
        if c == 0 {
            PieceType::Empty
        } else if c == 1 {
            PieceType::WhitePawn
        } else if c == 2 {
            PieceType::WhiteKnight
        } else if c == 3 {
            PieceType::WhiteBishop
        } else if c == 4 {
            PieceType::WhiteRook
        } else if c == 5 {
            PieceType::WhiteQueen
        } else if c == 6 {
            PieceType::WhiteKing
        } else if c == 7 {
            PieceType::BlackPawn
        } else if c == 8 {
            PieceType::BlackKnight
        } else if c == 9 {
            PieceType::BlackBishop
        } else if c == 10 {
            PieceType::BlackRook
        } else if c == 11 {
            PieceType::BlackQueen
        } else if c == 12 {
            PieceType::BlackKing
        } else {
            PieceType::OffBoard
        }
    }

    #[verifier::when_used_as_spec(spec_from_code)]
    pub fn from_code(c: u32) -> (p: PieceType)
        ensures
            p == PieceType::spec_from_code(c),
    {
        if c == 0 {
            PieceType::Empty
        } else if c == 1 {
            PieceType::WhitePawn
        } else if c == 2 {
            PieceType::WhiteKnight
        } else if c == 3 {
            PieceType::WhiteBishop
        } else if c == 4 {
            PieceType::WhiteRook
        } else if c == 5 {
            PieceType::WhiteQueen
        } else if c == 6 {
            PieceType::WhiteKing
        } else if c == 7 {
            PieceType::BlackPawn
        } else if c == 8 {
            PieceType::BlackKnight
        } else if c == 9 {
            PieceType::BlackBishop
        } else if c == 10 {
            PieceType::BlackRook
        } else if c == 11 {
            PieceType::BlackQueen
        } else if c == 12 {
            PieceType::BlackKing
        } else {
            PieceType::OffBoard
        }
    }

    /// The player a piece belongs to; an empty or off-board square belongs to `Both`.
    pub open spec fn spec_colour(self) -> Colours {
        if 1 <= self.spec_code() <= 6 {
            Colours::White
        } else if 7 <= self.spec_code() <= 12 {
            Colours::Black
        } else {
            Colours::Both
        }
    }

    #[verifier::when_used_as_spec(spec_colour)]
    pub fn colour(self) -> (c: Colours)
        ensures
            c == self.spec_colour(),
    {
        let code: u32 = self.code();
        if 1 <= code && code <= 6 {
            Colours::White
        } else if 7 <= code && code <= 12 {
            Colours::Black
        } else {
            Colours::Both
        }
    }

    /// One of the twelve pieces of the game.
    pub open spec fn spec_is_piece(self) -> bool {
        1 <= self.spec_code() <= 12
    }

    #[verifier::when_used_as_spec(spec_is_piece)]
    pub fn is_piece(self) -> (b: bool)
        ensures
            b == self.spec_is_piece(),
    {
        let code: u32 = self.code();
        1 <= code && code <= 12
    }

    pub open spec fn spec_is_pawn(self) -> bool {
        self == PieceType::WhitePawn || self == PieceType::BlackPawn
    }

    #[verifier::when_used_as_spec(spec_is_pawn)]
    pub fn is_pawn(self) -> (b: bool)
        ensures
            b == self.spec_is_pawn(),
    {
        self == PieceType::WhitePawn || self == PieceType::BlackPawn
    }

    pub open spec fn spec_is_knight(self) -> bool {
        self == PieceType::WhiteKnight || self == PieceType::BlackKnight
    }

    #[verifier::when_used_as_spec(spec_is_knight)]
    pub fn is_knight(self) -> (b: bool)
        ensures
            b == self.spec_is_knight(),
    {
        self == PieceType::WhiteKnight || self == PieceType::BlackKnight
    }

    pub open spec fn spec_is_king(self) -> bool {
        self == PieceType::WhiteKing || self == PieceType::BlackKing
    }

    #[verifier::when_used_as_spec(spec_is_king)]
    pub fn is_king(self) -> (b: bool)
        ensures
            b == self.spec_is_king(),
    {
        self == PieceType::WhiteKing || self == PieceType::BlackKing
    }

    /// A piece that moves along files and ranks.
    pub open spec fn spec_is_rook_queen(self) -> bool {
        self == PieceType::WhiteRook || self == PieceType::WhiteQueen
            || self == PieceType::BlackRook || self == PieceType::BlackQueen
    }

    #[verifier::when_used_as_spec(spec_is_rook_queen)]
    pub fn is_rook_queen(self) -> (b: bool)
        ensures
            b == self.spec_is_rook_queen(),
    {
        self == PieceType::WhiteRook || self == PieceType::WhiteQueen
            || self == PieceType::BlackRook || self == PieceType::BlackQueen
    }

    /// A piece that moves along diagonals.
    pub open spec fn spec_is_bishop_queen(self) -> bool {
        self == PieceType::WhiteBishop || self == PieceType::WhiteQueen
            || self == PieceType::BlackBishop || self == PieceType::BlackQueen
    }

    #[verifier::when_used_as_spec(spec_is_bishop_queen)]
    pub fn is_bishop_queen(self) -> (b: bool)
        ensures
            b == self.spec_is_bishop_queen(),
    {
        self == PieceType::WhiteBishop || self == PieceType::WhiteQueen
            || self == PieceType::BlackBishop || self == PieceType::BlackQueen
    }

    /// A bishop, rook or queen: a piece that moves any number of squares along a line.
    pub open spec fn spec_is_slider(self) -> bool {
        self.spec_is_rook_queen() || self.spec_is_bishop_queen()
    }

    #[verifier::when_used_as_spec(spec_is_slider)]
    pub fn is_slider(self) -> (b: bool)
        ensures
            b == self.spec_is_slider(),
    {
        self.is_rook_queen() || self.is_bishop_queen()
    }
}

/// The pawn, the rook and the king of a player: the pieces that the rules name by colour.
pub open spec fn spec_pawn_of(side: Colours) -> PieceType {
    match side {
        Colours::White => PieceType::WhitePawn,
        Colours::Black => PieceType::BlackPawn,
        Colours::Both => PieceType::Empty,
    }
}

#[verifier::when_used_as_spec(spec_pawn_of)]
pub fn pawn_of(side: Colours) -> (p: PieceType)
    ensures
        p == spec_pawn_of(side),
{
    match side {
        Colours::White => PieceType::WhitePawn,
        Colours::Black => PieceType::BlackPawn,
        Colours::Both => PieceType::Empty,
    }
}

pub open spec fn spec_rook_of(side: Colours) -> PieceType {
    match side {
        Colours::White => PieceType::WhiteRook,
        Colours::Black => PieceType::BlackRook,
        Colours::Both => PieceType::Empty,
    }
}

#[verifier::when_used_as_spec(spec_rook_of)]
pub fn rook_of(side: Colours) -> (p: PieceType)
    ensures
        p == spec_rook_of(side),
{
    match side {
        Colours::White => PieceType::WhiteRook,
        Colours::Black => PieceType::BlackRook,
        Colours::Both => PieceType::Empty,
    }
}

pub open spec fn spec_king_of(side: Colours) -> PieceType {
    match side {
        Colours::White => PieceType::WhiteKing,
        Colours::Black => PieceType::BlackKing,
        Colours::Both => PieceType::Empty,
    }
}

#[verifier::when_used_as_spec(spec_king_of)]
pub fn king_of(side: Colours) -> (p: PieceType)
    ensures
        p == spec_king_of(side),
{
    match side {
        Colours::White => PieceType::WhiteKing,
        Colours::Black => PieceType::BlackKing,
        Colours::Both => PieceType::Empty,
    }
}

/// The origin of a packed move: its lowest seven bits.
pub open spec fn from_sq(m: u32) -> u32 {
    m & 0x7f
}

/// The destination of a packed move: the next seven bits.
pub open spec fn to_sq(m: u32) -> u32 {
    (m >> 7) & 0x7f
}

/// The code of the captured piece: four bits from bit 14.
pub open spec fn captured(m: u32) -> u32 {
    (m >> 14) & 0xf
}

/// The code of the piece a pawn is promoted to: four bits from bit 20.
pub open spec fn promoted(m: u32) -> u32 {
    (m >> 20) & 0xf
}

pub open spec fn spec_is_en_passant(m: u32) -> bool {
    m & MOVE_FLAG_ENPASSANT != 0
}

pub open spec fn spec_is_pawn_start(m: u32) -> bool {
    m & MOVE_FLAG_PAWN_START != 0
}

pub open spec fn spec_is_castle(m: u32) -> bool {
    m & MOVE_FLAG_CASTLE != 0
}

/// The three flags of a move as bits.
pub open spec fn flags_of(en_passant: bool, pawn_start: bool, castle: bool) -> u32 {
    (if en_passant { MOVE_FLAG_ENPASSANT } else { 0u32 })
        | (if pawn_start { MOVE_FLAG_PAWN_START } else { 0u32 })
        | (if castle { MOVE_FLAG_CASTLE } else { 0u32 })
}

/// The fields of a move packed into one integer.
pub open spec fn pack(from: u32, to: u32, captured: u32, promoted: u32, flags: u32) -> u32 {
    from | (to << 7) | (captured << 14) | (promoted << 20) | flags
}

/// The packed move with the given squares, pieces and flags.
pub open spec fn move_of(
    from: u8,
    to: u8,
    captured: PieceType,
    promoted: PieceType,
    en_passant: bool,
    pawn_start: bool,
    castle: bool,
) -> u32 {
    pack(
        from as u32,
        to as u32,
        captured.spec_code(),
        promoted.spec_code(),
        flags_of(en_passant, pawn_start, castle),
    )
}

/// What `encode` accepts: both squares on the padded board, and no promotion to a pawn or a king.
pub open spec fn encodable(from: u8, to: u8, promoted: PieceType) -> bool {
    from < BOARD_SQUARE_NUM && to < BOARD_SQUARE_NUM && !promoted.spec_is_pawn()
        && !promoted.spec_is_king()
}

/// The origin square of a move.
pub fn FromSq(m: u32) -> (sq: u32)
    ensures
        sq == from_sq(m),
        sq < 128,
{
    assert(m & 0x7f < 128) by (bit_vector);
    m & 0x7f
}

/// The destination square of a move.
pub fn ToSq(m: u32) -> (sq: u32)
    ensures
        sq == to_sq(m),
        sq < 128,
{
    assert((m >> 7) & 0x7f < 128) by (bit_vector);
    (m >> 7) & 0x7f
}

/// The code of the piece a move captures, 0 if it captures none on its destination.
pub fn Captured(m: u32) -> (code: u32)
    ensures
        code == captured(m),
        code < 16,
{
    assert((m >> 14) & 0xf < 16) by (bit_vector);
    (m >> 14) & 0xf
}

/// The code of the piece a move promotes to, 0 if it does not promote.
pub fn Promoted(m: u32) -> (code: u32)
    ensures
        code == promoted(m),
        code < 16,
{
    assert((m >> 20) & 0xf < 16) by (bit_vector);
    (m >> 20) & 0xf
}

#[verifier::when_used_as_spec(spec_is_en_passant)]
pub fn is_en_passant(m: u32) -> (b: bool)
    ensures
        b == spec_is_en_passant(m),
{
    m & MOVE_FLAG_ENPASSANT != 0
}

#[verifier::when_used_as_spec(spec_is_pawn_start)]
pub fn is_pawn_start(m: u32) -> (b: bool)
    ensures
        b == spec_is_pawn_start(m),
{
    m & MOVE_FLAG_PAWN_START != 0
}

#[verifier::when_used_as_spec(spec_is_castle)]
pub fn is_castle(m: u32) -> (b: bool)
    ensures
        b == spec_is_castle(m),
{
    m & MOVE_FLAG_CASTLE != 0
}

proof fn lemma_pack_bits(from: u32, to: u32, cap: u32, prom: u32, ep: bool, ps: bool, ca: bool)
    by (bit_vector)
    requires
        from < 128,
        to < 128,
        cap < 16,
        prom < 16,
    ensures
        ({
            let flags = (if ep { 0x40000u32 } else { 0u32 }) | (if ps { 0x80000u32 } else { 0u32 })
                | (if ca { 0x1000000u32 } else { 0u32 });
            let m = from | (to << 7) | (cap << 14) | (prom << 20) | flags;
            &&& m & 0x7f == from
            &&& (m >> 7) & 0x7f == to
            &&& (m >> 14) & 0xf == cap
            &&& (m >> 20) & 0xf == prom
            &&& (m & 0x40000u32 != 0) == ep
            &&& (m & 0x80000u32 != 0) == ps
            &&& (m & 0x1000000u32 != 0) == ca
        }),
{
}

/// Unpacking a packed move gives back each field that fits its width.
pub proof fn lemma_pack_unpack(
    from: u32,
    to: u32,
    cap: u32,
    prom: u32,
    ep: bool,
    ps: bool,
    ca: bool,
)
    requires
        from < 128,
        to < 128,
        cap < 16,
        prom < 16,
    ensures
        ({
            let m = pack(from, to, cap, prom, flags_of(ep, ps, ca));
            &&& from_sq(m) == from
            &&& to_sq(m) == to
            &&& captured(m) == cap
            &&& promoted(m) == prom
            &&& spec_is_en_passant(m) == ep
            &&& spec_is_pawn_start(m) == ps
            &&& spec_is_castle(m) == ca
        }),
{
    lemma_pack_bits(from, to, cap, prom, ep, ps, ca);
}

/// Packs a move without looking at its fields; the caller answers for them.
pub fn pack_move(
    from: u8,
    to: u8,
    captured: PieceType,
    promoted: PieceType,
    en_passant: bool,
    pawn_start: bool,
    castle: bool,
) -> (m: u32)
    ensures
        m == move_of(from, to, captured, promoted, en_passant, pawn_start, castle),
{
    let e: u32 = if en_passant { MOVE_FLAG_ENPASSANT } else { 0u32 };
    let p: u32 = if pawn_start { MOVE_FLAG_PAWN_START } else { 0u32 };
    let c: u32 = if castle { MOVE_FLAG_CASTLE } else { 0u32 };
    let flags: u32 = e | p | c;
    (from as u32) | ((to as u32) << 7) | (captured.code() << 14) | (promoted.code() << 20) | flags
}

/// Packs a move after checking its squares and its promotion.
pub fn encode(
    from: u8,
    to: u8,
    captured: PieceType,
    promoted: PieceType,
    en_passant: bool,
    pawn_start: bool,
    castle: bool,
) -> (r: Option<u32>)
    ensures
        r.is_some() == encodable(from, to, promoted),
        r.is_some() ==> r.unwrap() == move_of(
            from,
            to,
            captured,
            promoted,
            en_passant,
            pawn_start,
            castle,
        ),
{
    if (from as usize) < BOARD_SQUARE_NUM && (to as usize) < BOARD_SQUARE_NUM && !promoted.is_pawn()
        && !promoted.is_king() {
        Some(pack_move(from, to, captured, promoted, en_passant, pawn_start, castle))
    } else {
        None
    }
}

/// An encoded move gives back, field by field, what was put into it.
pub proof fn lemma_encode_decode(
    from: u8,
    to: u8,
    cap: PieceType,
    prom: PieceType,
    ep: bool,
    ps: bool,
    ca: bool,
)
    requires
        encodable(from, to, prom),
    ensures
        ({
            let m = move_of(from, to, cap, prom, ep, ps, ca);
            &&& from_sq(m) == from
            &&& to_sq(m) == to
            &&& captured(m) == cap.spec_code()
            &&& promoted(m) == prom.spec_code()
            &&& PieceType::spec_from_code(captured(m)) == cap
            &&& PieceType::spec_from_code(promoted(m)) == prom
            &&& spec_is_en_passant(m) == ep
            &&& spec_is_pawn_start(m) == ps
            &&& spec_is_castle(m) == ca
        }),
{
    lemma_pack_unpack(from as u32, to as u32, cap.spec_code(), prom.spec_code(), ep, ps, ca);
}

/// What a move took from the board that the move itself does not tell: enough to take it
/// back.
#[derive(Clone, Copy, Debug, PartialEq, Eq, Structural)]
pub struct Undo {
    /// The move that was made.
    pub move_: u32,
    /// The castling rights before the move.
    pub castle_permissions: u8,
    /// The en-passant target before the move.
    pub en_passant_square: u8,
    /// The halfmove clock before the move.
    pub fifty_move: u32,
    /// The position key before the move.
    pub pos_key: u64,
}

/// The moves generated for one position, at most `MAX_POSITION_MOVES` of them.
#[derive(Debug)]
pub struct MoveList {
    moves: Vec<u32>,
}

impl View for MoveList {
    type V = Seq<u32>;

    closed spec fn view(&self) -> Seq<u32> {
        self.moves@
    }
}

impl MoveList {
    /// The list holds no more than its capacity.
    pub open spec fn wf(&self) -> bool {
        self@.len() <= MAX_POSITION_MOVES
    }

    /// The empty list.
    pub fn new() -> (list: MoveList)
        ensures
            list@ == Seq::<u32>::empty(),
            list.wf(),
    {
        MoveList { moves: Vec::new() }
    }

    /// The list of the given moves, if they fit its capacity.
    pub fn from_moves(moves: Vec<u32>) -> (r: Option<MoveList>)
        ensures
            r.is_some() == (moves@.len() <= MAX_POSITION_MOVES),
            r.is_some() ==> r.unwrap()@ == moves@ && r.unwrap().wf(),
    {
        if moves.len() <= MAX_POSITION_MOVES {
            Some(MoveList { moves })
        } else {
            None
        }
    }

    /// The number of moves on the list.
    pub fn count(&self) -> (n: usize)
        ensures
            n == self@.len(),
    {
        self.moves.len()
    }

    /// The `i`-th move, `NO_MOVE` past the end of the list.
    pub fn get(&self, i: usize) -> (m: u32)
        ensures
            i < self@.len() ==> m == self@[i as int],
            i >= self@.len() ==> m == NO_MOVE,
    {
        if i < self.moves.len() {
            self.moves[i]
        } else {
            NO_MOVE
        }
    }
}

} // verus!
