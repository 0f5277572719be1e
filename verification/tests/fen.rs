use crust::board::Board;
use crust::defines::{Colours, PieceType, NO_SQUARE, START_FEN};
use crust::fen::{parse_fen_bytes, split_bytes, ParseError};

fn error_of(fen: &str) -> ParseError {
    let mut board = Board::new();
    board.set_from_fen(fen).unwrap_err()
}

#[test]
fn start_position_is_read_square_by_square() {
    let mut board = Board::new();
    assert_eq!(board.set_from_fen(START_FEN), Ok(()));
    let back = [
        PieceType::WhiteRook,
        PieceType::WhiteKnight,
        PieceType::WhiteBishop,
        PieceType::WhiteQueen,
        PieceType::WhiteKing,
        PieceType::WhiteBishop,
        PieceType::WhiteKnight,
        PieceType::WhiteRook,
    ];
    for file in 0u8..8 {
        assert_eq!(board.piece_at(21 + file), back[file as usize]);
        assert_eq!(board.piece_at(31 + file), PieceType::WhitePawn);
        for rank in 2u8..6 {
            assert_eq!(board.piece_at(21 + file + rank * 10), PieceType::Empty);
        }
        assert_eq!(board.piece_at(81 + file), PieceType::BlackPawn);
        assert_eq!(
            board.piece_at(91 + file),
            PieceType::from_code(back[file as usize].code() + 6)
        );
    }
    assert_eq!(board.side_to_move(), Colours::White);
    assert_eq!(board.castle_rights(), 15);
    assert_eq!(board.en_passant(), NO_SQUARE);
    assert_eq!(board.halfmove_clock(), 0);
    assert_eq!(board.fullmove(), 1);
    assert_eq!(board.history_len(), 0);
    assert_eq!(board.position_key(), board.compute_key());
}

#[test]
fn every_field_is_read() {
    let mut board = Board::new();
    assert_eq!(
        board.set_from_fen("rnbqkbnr/ppp1pppp/8/3pP3/8/8/PPPP1PPP/RNBQKBNR b Kq d6 17 42"),
        Ok(())
    );
    assert_eq!(board.side_to_move(), Colours::Black);
    assert_eq!(board.castle_rights(), 1 | 8);
    assert_eq!(board.en_passant(), 74);
    assert_eq!(board.halfmove_clock(), 17);
    assert_eq!(board.fullmove(), 42);
    assert_eq!(board.piece_at(64), PieceType::BlackPawn);
    assert_eq!(board.piece_at(65), PieceType::WhitePawn);
    assert_eq!(board.piece_at(35), PieceType::Empty);
    assert_eq!(board.piece_at(84), PieceType::Empty);
}

#[test]
fn castling_letters_in_any_order() {
    let mut board = Board::new();
    assert_eq!(board.set_from_fen("8/8/8/8/8/8/8/8 w qkQK - 0 1"), Ok(()));
    assert_eq!(board.castle_rights(), 15);
    assert_eq!(board.set_from_fen("8/8/8/8/8/8/8/8 w Q - 0 1"), Ok(()));
    assert_eq!(board.castle_rights(), 2);
    assert_eq!(board.set_from_fen("8/8/8/8/8/8/8/8 w k - 0 1"), Ok(()));
    assert_eq!(board.castle_rights(), 4);
    assert_eq!(board.set_from_fen("8/8/8/8/8/8/8/8 w KK - 0 1"), Ok(()));
    assert_eq!(board.castle_rights(), 1);
    assert_eq!(board.set_from_fen("8/8/8/8/8/8/8/8 w - - 0 1"), Ok(()));
    assert_eq!(board.castle_rights(), 0);
}

#[test]
fn counters_up_to_their_bound() {
    let mut board = Board::new();
    assert_eq!(board.set_from_fen("8/8/8/8/8/8/8/8 w - - 65535 65535"), Ok(()));
    assert_eq!(board.halfmove_clock(), 65535);
    assert_eq!(board.fullmove(), 65535);
    assert_eq!(board.set_from_fen("8/8/8/8/8/8/8/8 w - - 007 0000000012"), Ok(()));
    assert_eq!(board.halfmove_clock(), 7);
    assert_eq!(board.fullmove(), 12);
    assert_eq!(error_of("8/8/8/8/8/8/8/8 w - - 65536 1"), ParseError::InvalidCounter);
    assert_eq!(error_of("8/8/8/8/8/8/8/8 w - - 0 99999999999999999999"), ParseError::InvalidCounter);
    assert_eq!(error_of("8/8/8/8/8/8/8/8 w - - x 1"), ParseError::InvalidCounter);
    assert_eq!(error_of("8/8/8/8/8/8/8/8 w - - 0 1x"), ParseError::InvalidCounter);
    assert_eq!(error_of("8/8/8/8/8/8/8/8 w - - -1 1"), ParseError::InvalidCounter);
    assert_eq!(error_of("8/8/8/8/8/8/8/8 w - - 0 "), ParseError::InvalidCounter);
}

#[test]
fn wrong_field_count() {
    assert_eq!(error_of(""), ParseError::FieldCount);
    assert_eq!(error_of("8/8/8/8/8/8/8/8"), ParseError::FieldCount);
    assert_eq!(error_of("8/8/8/8/8/8/8/8 w - - 0"), ParseError::FieldCount);
    assert_eq!(error_of("8/8/8/8/8/8/8/8 w - - 0 1 2"), ParseError::FieldCount);
    assert_eq!(error_of("8/8/8/8/8/8/8/8  w - - 0 1"), ParseError::FieldCount);
    assert_eq!(error_of("8/8/8/8/8/8/8/8 w - - 0 1 "), ParseError::FieldCount);
    assert_eq!(error_of("x y z"), ParseError::FieldCount);
}

#[test]
fn wrong_rank_count() {
    assert_eq!(error_of("8/8/8/8/8/8/8 w - - 0 1"), ParseError::RankCount);
    assert_eq!(error_of("8/8/8/8/8/8/8/8/8 w - - 0 1"), ParseError::RankCount);
    assert_eq!(error_of("8 w - - 0 1"), ParseError::RankCount);
    assert_eq!(error_of(" w - - 0 1"), ParseError::RankCount);
}

#[test]
fn invalid_piece_letters() {
    assert_eq!(error_of("8/8/8/8/8/8/8/7x w - - 0 1"), ParseError::InvalidPiece);
    assert_eq!(error_of("9/8/8/8/8/8/8/8 w - - 0 1"), ParseError::InvalidPiece);
    assert_eq!(error_of("8/8/8/8/8/8/8/08 w - - 0 1"), ParseError::InvalidPiece);
    assert_eq!(error_of("8/8/8/8/8/8/8/7. w - - 0 1"), ParseError::InvalidPiece);
    assert_eq!(error_of("rnbqkbnr/pppppppp/8/8/8/8/PPPPPPPP/RNBQKBNZ w KQkq - 0 1"), ParseError::InvalidPiece);
}

#[test]
fn ranks_that_do_not_add_up() {
    assert_eq!(error_of("8/8/8/8/8/8/8/7 w - - 0 1"), ParseError::RankLength);
    assert_eq!(error_of("8/8/8/8/8/8/8/81 w - - 0 1"), ParseError::RankLength);
    assert_eq!(error_of("8/8/8/8/8/8/8/PPPPPPPPP w - - 0 1"), ParseError::RankLength);
    assert_eq!(error_of("8/8/8/8/8/8/8/ w - - 0 1"), ParseError::RankLength);
    assert_eq!(error_of("8/8/8/8/8/8//8 w - - 0 1"), ParseError::RankLength);
    assert_eq!(error_of("rnbqkbnr/pppppppp/8/8/8/8/PPPPPPP/RNBQKBNR w KQkq - 0 1"), ParseError::RankLength);
}

#[test]
fn invalid_side() {
    assert_eq!(error_of("8/8/8/8/8/8/8/8 x - - 0 1"), ParseError::InvalidSide);
    assert_eq!(error_of("8/8/8/8/8/8/8/8 W - - 0 1"), ParseError::InvalidSide);
    assert_eq!(error_of("8/8/8/8/8/8/8/8 wb - - 0 1"), ParseError::InvalidSide);
    assert_eq!(error_of("8/8/8/8/8/8/8/8 - - - 0 1"), ParseError::InvalidSide);
}

#[test]
fn invalid_castling() {
    assert_eq!(error_of("8/8/8/8/8/8/8/8 w KX - 0 1"), ParseError::InvalidCastling);
    assert_eq!(error_of("8/8/8/8/8/8/8/8 w -- - 0 1"), ParseError::InvalidCastling);
    assert_eq!(error_of("8/8/8/8/8/8/8/8 w K- - 0 1"), ParseError::InvalidCastling);
    assert_eq!(error_of("8/8/8/8/8/8/8/8 w a - 0 1"), ParseError::InvalidCastling);
}

#[test]
fn invalid_en_passant() {
    assert_eq!(error_of("8/8/8/8/8/8/8/8 w - e9 0 1"), ParseError::InvalidEnPassant);
    assert_eq!(error_of("8/8/8/8/8/8/8/8 w - i3 0 1"), ParseError::InvalidEnPassant);
    assert_eq!(error_of("8/8/8/8/8/8/8/8 w - e 0 1"), ParseError::InvalidEnPassant);
    assert_eq!(error_of("8/8/8/8/8/8/8/8 w - e3e 0 1"), ParseError::InvalidEnPassant);
    assert_eq!(error_of("8/8/8/8/8/8/8/8 w - E3 0 1"), ParseError::InvalidEnPassant);
    assert_eq!(error_of("8/8/8/8/8/8/8/8 w - 3e 0 1"), ParseError::InvalidEnPassant);
}

#[test]
fn the_first_bad_field_gives_the_error() {
    assert_eq!(error_of("8/8/8/8/8/8/8/7x x KX e9 x x"), ParseError::InvalidPiece);
    assert_eq!(error_of("8/8/8/8/8/8/8/8 x KX e9 x x"), ParseError::InvalidSide);
    assert_eq!(error_of("8/8/8/8/8/8/8/8 w KX e9 x x"), ParseError::InvalidCastling);
    assert_eq!(error_of("8/8/8/8/8/8/8/8 w K e9 x x"), ParseError::InvalidEnPassant);
    assert_eq!(error_of("8/8/8/8/8/8/8/8 w K e3 x x"), ParseError::InvalidCounter);
    assert_eq!(error_of("7/8/8/8/8/8/8/7x w - - 0 1"), ParseError::RankLength);
    assert_eq!(error_of("8/8/8/8/8/8/8/7x/8 w - - 0 1"), ParseError::RankCount);
}

#[test]
fn a_bad_text_leaves_the_board_as_it_was() {
    let mut board = Board::new();
    assert_eq!(board.set_from_fen(START_FEN), Ok(()));
    assert!(board.make_move(531363));
    let key = board.position_key();
    for bad in ["", "8/8/8/8/8/8/8/8 w - - 0", "8/8/8/8/8/8/8/7x w - - 0 1", "8/8/8/8/8/8/8/8 w - - 0 x"] {
        assert!(board.set_from_fen(bad).is_err());
        assert_eq!(board.position_key(), key);
        assert_eq!(board.history_len(), 1);
        assert_eq!(board.piece_at(55), PieceType::WhitePawn);
        assert_eq!(board.piece_at(35), PieceType::Empty);
        assert_eq!(board.side_to_move(), Colours::Black);
        assert_eq!(board.en_passant(), 45);
    }
}

#[test]
fn a_position_replaces_board_and_history() {
    let mut board = Board::new();
    assert_eq!(board.set_from_fen(START_FEN), Ok(()));
    assert!(board.make_move(531363));
    assert_eq!(board.set_from_fen("8/8/8/8/8/8/8/4K3 b - - 3 9"), Ok(()));
    assert_eq!(board.history_len(), 0);
    assert_eq!(board.piece_at(25), PieceType::WhiteKing);
    assert_eq!(board.piece_at(55), PieceType::Empty);
    assert_eq!(board.position_key(), board.compute_key());
}

#[test]
fn splitting_keeps_empty_parts() {
    assert_eq!(split_bytes(b"", b' '), vec![Vec::<u8>::new()]);
    assert_eq!(split_bytes(b"ab", b' '), vec![b"ab".to_vec()]);
    assert_eq!(split_bytes(b"a b", b' '), vec![b"a".to_vec(), b"b".to_vec()]);
    assert_eq!(
        split_bytes(b" a  b ", b' '),
        vec![vec![], b"a".to_vec(), vec![], b"b".to_vec(), vec![]]
    );
    assert_eq!(split_bytes(b"8/8", b'/'), vec![b"8".to_vec(), b"8".to_vec()]);
}

#[test]
fn parsing_bytes_gives_the_position() {
    let p = parse_fen_bytes(b"8/8/8/8/8/8/8/R3K2R b Qk a3 5 6").ok().unwrap();
    assert_eq!(p.pieces.len(), 120);
    assert_eq!(p.pieces[0], PieceType::OffBoard);
    assert_eq!(p.pieces[21], PieceType::WhiteRook);
    assert_eq!(p.pieces[25], PieceType::WhiteKing);
    assert_eq!(p.pieces[28], PieceType::WhiteRook);
    assert_eq!(p.pieces[29], PieceType::OffBoard);
    assert_eq!(p.pieces[31], PieceType::Empty);
    assert_eq!(p.side, Colours::Black);
    assert_eq!(p.castle_rights, 2 | 4);
    assert_eq!(p.en_passant, 41);
    assert_eq!(p.halfmove_clock, 5);
    assert_eq!(p.fullmove, 6);
    assert_eq!(parse_fen_bytes(b"nonsense").err(), Some(ParseError::FieldCount));
}
