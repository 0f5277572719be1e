use vstd::prelude::*;
use crate::defines::{
    file_rank_to_square, is_on_board, on_board, FileRankToSquare, PieceType, NO_SQUARE,
};

verus! {

/// The letter of a piece: upper case for White, lower case for Black; a dot for an empty
/// square and a blank for a square outside the playable area.
pub open spec fn spec_piece_to_char(p: PieceType) -> u8 {
    match p {
        PieceType::Empty => 46,
        PieceType::WhitePawn => 80,
        PieceType::WhiteKnight => 78,
        PieceType::WhiteBishop => 66,
        PieceType::WhiteRook => 82,
        PieceType::WhiteQueen => 81,
        PieceType::WhiteKing => 75,
        PieceType::BlackPawn => 112,
        PieceType::BlackKnight => 110,
        PieceType::BlackBishop => 98,
        PieceType::BlackRook => 114,
        PieceType::BlackQueen => 113,
        PieceType::BlackKing => 107,
        PieceType::OffBoard => 32,
    }
}

#[verifier::when_used_as_spec(spec_piece_to_char)]
pub fn piece_to_char(p: PieceType) -> (c: u8)
    ensures
        c == spec_piece_to_char(p),
{
    match p {
        PieceType::Empty => 46,
        PieceType::WhitePawn => 80,
        PieceType::WhiteKnight => 78,
        PieceType::WhiteBishop => 66,
        PieceType::WhiteRook => 82,
        PieceType::WhiteQueen => 81,
        PieceType::WhiteKing => 75,
        PieceType::BlackPawn => 112,
        PieceType::BlackKnight => 110,
        PieceType::BlackBishop => 98,
        PieceType::BlackRook => 114,
        PieceType::BlackQueen => 113,
        PieceType::BlackKing => 107,
        PieceType::OffBoard => 32,
    }
}

/// The piece a letter stands for; only the twelve letters of the pieces stand for one.
pub open spec fn spec_piece_from_char(c: u8) -> Option<PieceType> {
    if c == 80 {
        Some(PieceType::WhitePawn)
    } else if c == 78 {
        Some(PieceType::WhiteKnight)
    } else if c == 66 {
        Some(PieceType::WhiteBishop)
    } else if c == 82 {
        Some(PieceType::WhiteRook)
    } else if c == 81 {
        Some(PieceType::WhiteQueen)
    } else if c == 75 {
        Some(PieceType::WhiteKing)
    } else if c == 112 {
        Some(PieceType::BlackPawn)
    } else if c == 110 {
        Some(PieceType::BlackKnight)
    } else if c == 98 {
        Some(PieceType::BlackBishop)
    } else if c == 114 {
        Some(PieceType::BlackRook)
    } else if c == 113 {
        Some(PieceType::BlackQueen)
    } else if c == 107 {
        Some(PieceType::BlackKing)
    } else {
        None
    }
}

#[verifier::when_used_as_spec(spec_piece_from_char)]
pub fn piece_from_char(c: u8) -> (p: Option<PieceType>)
    ensures
        p == spec_piece_from_char(c),
{
    if c == 80 {
        Some(PieceType::WhitePawn)
    } else if c == 78 {
        Some(PieceType::WhiteKnight)
    } else if c == 66 {
        Some(PieceType::WhiteBishop)
    } else if c == 82 {
        Some(PieceType::WhiteRook)
    } else if c == 81 {
        Some(PieceType::WhiteQueen)
    } else if c == 75 {
        Some(PieceType::WhiteKing)
    } else if c == 112 {
        Some(PieceType::BlackPawn)
    } else if c == 110 {
        Some(PieceType::BlackKnight)
    } else if c == 98 {
        Some(PieceType::BlackBishop)
    } else if c == 114 {
        Some(PieceType::BlackRook)
    } else if c == 113 {
        Some(PieceType::BlackQueen)
    } else if c == 107 {
        Some(PieceType::BlackKing)
    } else {
        None
    }
}

/// A letter read back from a piece is the piece.
pub proof fn lemma_piece_char_round_trip(p: PieceType)
    requires
        p.spec_is_piece(),
    ensures
        spec_piece_from_char(spec_piece_to_char(p)) == Some(p),
{
}

/// The padded index of the square with a name: a file letter from `a` to `h` and a rank
/// digit from `1` to `8`. Any other pair of characters names no square.
pub open spec fn spec_square_from_name(file: u8, rank: u8) -> u8 {
    if 97 <= file <= 104 && 49 <= rank <= 56 {
        file_rank_to_square(file - 97, rank - 49) as u8
    } else {
        NO_SQUARE
    }
}

#[verifier::when_used_as_spec(spec_square_from_name)]
pub fn square_from_name(file: u8, rank: u8) -> (sq: u8)
    ensures
        sq == spec_square_from_name(file, rank),
        sq == NO_SQUARE || on_board(sq as int),
{
    if 97 <= file && file <= 104 && 49 <= rank && rank <= 56 {
        FileRankToSquare(file - 97, rank - 49)
    } else {
        NO_SQUARE
    }
}

/// The name of a playable square, file letter first; two dashes for any other index.
pub open spec fn spec_square_name(sq: u8) -> (u8, u8) {
    if on_board(sq as int) {
        ((sq % 10 + 96) as u8, (sq / 10 + 47) as u8)
    } else {
        (45u8, 45u8)
    }
}

#[verifier::when_used_as_spec(spec_square_name)]
pub fn square_name(sq: u8) -> (name: (u8, u8))
    ensures
        name == spec_square_name(sq),
{
    if is_on_board(sq) {
        (sq % 10 + 96, sq / 10 + 47)
    } else {
        (45, 45)
    }
}

/// A name read back from a playable square is the square.
pub proof fn lemma_square_name_round_trip(sq: u8)
    requires
        on_board(sq as int),
    ensures
        spec_square_from_name(spec_square_name(sq).0, spec_square_name(sq).1) == sq,
{
}

} // verus!
