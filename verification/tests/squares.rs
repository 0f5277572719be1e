use crust::defines::{
    file_of, is_on_board, rank_of, FileRankToSquare, Files, Ranks, Squares, NO_SQUARE, OFF_BOARD,
    OFF_DENSE,
};
use crust::notation::{piece_from_char, piece_to_char, square_from_name, square_name};
use crust::board::Board;
use crust::defines::{Colours, GameModes, PieceType, NAME, START_FEN};
use crust::squares::SquareMap;

#[test]
fn file_rank_to_square_corners() {
    assert_eq!(FileRankToSquare(0, 0), 21);
    assert_eq!(FileRankToSquare(7, 0), 28);
    assert_eq!(FileRankToSquare(0, 7), 91);
    assert_eq!(FileRankToSquare(7, 7), 98);
    assert_eq!(FileRankToSquare(4, 3), 55);
}

#[test]
fn square_map_is_a_bijection_on_playable_squares() {
    let map = SquareMap::new();
    for dense in 0u8..64 {
        let padded = map.to_padded(dense);
        assert_eq!(padded, 21 + dense % 8 + (dense / 8) * 10);
        assert!(is_on_board(padded));
        assert_eq!(map.to_dense(padded), dense);
    }
    let mut playable = 0;
    for padded in 0u8..120 {
        let dense = map.to_dense(padded);
        if is_on_board(padded) {
            playable += 1;
            assert!(dense < 64);
            assert_eq!(map.to_padded(dense), padded);
        } else {
            assert_eq!(dense, OFF_DENSE);
        }
    }
    assert_eq!(playable, 64);
}

#[test]
fn square_map_sentinels() {
    let map = SquareMap::new();
    assert_eq!(map.to_dense(0), 65);
    assert_eq!(map.to_dense(20), 65);
    assert_eq!(map.to_dense(29), 65);
    assert_eq!(map.to_dense(30), 65);
    assert_eq!(map.to_dense(99), 65);
    assert_eq!(map.to_dense(119), 65);
    assert_eq!(map.to_dense(120), 65);
    assert_eq!(map.to_dense(255), 65);
    assert_eq!(map.to_padded(64), OFF_BOARD);
    assert_eq!(map.to_padded(255), OFF_BOARD);
    assert_eq!(map.to_padded(0), 21);
    assert_eq!(map.to_padded(63), 98);
    assert_eq!(map.to_dense(21), 0);
    assert_eq!(map.to_dense(98), 63);
}

#[test]
fn on_board_is_the_inner_eight_by_eight() {
    assert!(!is_on_board(0));
    assert!(!is_on_board(20));
    assert!(is_on_board(21));
    assert!(is_on_board(28));
    assert!(!is_on_board(29));
    assert!(!is_on_board(30));
    assert!(is_on_board(31));
    assert!(is_on_board(98));
    assert!(!is_on_board(99));
    assert!(!is_on_board(100));
    assert!(!is_on_board(119));
    assert!(!is_on_board(255));
    assert!(!is_on_board(NO_SQUARE));
    assert!(!is_on_board(OFF_BOARD));
}

#[test]
fn named_squares_have_their_indices() {
    assert_eq!(Squares::A1.index(), 21);
    assert_eq!(Squares::H1.index(), 28);
    assert_eq!(Squares::A2.index(), 31);
    assert_eq!(Squares::E4.index(), 55);
    assert_eq!(Squares::D5.index(), 64);
    assert_eq!(Squares::A8.index(), 91);
    assert_eq!(Squares::H8.index(), 98);
    assert_eq!(Squares::NoSquare.index(), 99);
    assert_eq!(Squares::OffBoard.index(), 100);
}

#[test]
fn files_and_ranks_of_squares() {
    assert_eq!(file_of(55), Files::FileE);
    assert_eq!(rank_of(55), Ranks::Rank4);
    assert_eq!(file_of(21), Files::FileA);
    assert_eq!(rank_of(21), Ranks::Rank1);
    assert_eq!(file_of(98), Files::FileH);
    assert_eq!(rank_of(98), Ranks::Rank8);
    assert_eq!(file_of(0), Files::FileNone);
    assert_eq!(rank_of(0), Ranks::RankNone);
    assert_eq!(file_of(30), Files::FileNone);
    assert_eq!(rank_of(99), Ranks::RankNone);
    assert_eq!(Files::FileC.index(), 2);
    assert_eq!(Files::FileNone.index(), 8);
    assert_eq!(Ranks::Rank8.index(), 7);
    assert_eq!(Ranks::RankNone.index(), 8);
    assert_eq!(Files::from_index(7), Files::FileH);
    assert_eq!(Files::from_index(8), Files::FileNone);
    assert_eq!(Ranks::from_index(0), Ranks::Rank1);
    assert_eq!(Ranks::from_index(200), Ranks::RankNone);
    for sq in 0u8..120 {
        if is_on_board(sq) {
            assert_eq!(FileRankToSquare(file_of(sq).index(), rank_of(sq).index()), sq);
        }
    }
}

#[test]
fn piece_letters() {
    assert_eq!(piece_to_char(PieceType::Empty), b'.');
    assert_eq!(piece_to_char(PieceType::WhitePawn), b'P');
    assert_eq!(piece_to_char(PieceType::WhiteKnight), b'N');
    assert_eq!(piece_to_char(PieceType::WhiteBishop), b'B');
    assert_eq!(piece_to_char(PieceType::WhiteRook), b'R');
    assert_eq!(piece_to_char(PieceType::WhiteQueen), b'Q');
    assert_eq!(piece_to_char(PieceType::WhiteKing), b'K');
    assert_eq!(piece_to_char(PieceType::BlackPawn), b'p');
    assert_eq!(piece_to_char(PieceType::BlackKnight), b'n');
    assert_eq!(piece_to_char(PieceType::BlackBishop), b'b');
    assert_eq!(piece_to_char(PieceType::BlackRook), b'r');
    assert_eq!(piece_to_char(PieceType::BlackQueen), b'q');
    assert_eq!(piece_to_char(PieceType::BlackKing), b'k');
    assert_eq!(piece_from_char(b'Q'), Some(PieceType::WhiteQueen));
    assert_eq!(piece_from_char(b'n'), Some(PieceType::BlackKnight));
    assert_eq!(piece_from_char(b'.'), None);
    assert_eq!(piece_from_char(b'x'), None);
    assert_eq!(piece_from_char(b'1'), None);
    for code in 1u32..=12 {
        let p = PieceType::from_code(code);
        assert_eq!(piece_from_char(piece_to_char(p)), Some(p));
    }
}

#[test]
fn square_names() {
    assert_eq!(square_from_name(b'a', b'1'), 21);
    assert_eq!(square_from_name(b'e', b'4'), 55);
    assert_eq!(square_from_name(b'h', b'8'), 98);
    assert_eq!(square_from_name(b'i', b'4'), NO_SQUARE);
    assert_eq!(square_from_name(b'e', b'9'), NO_SQUARE);
    assert_eq!(square_from_name(b'e', b'0'), NO_SQUARE);
    assert_eq!(square_from_name(b'E', b'4'), NO_SQUARE);
    assert_eq!(square_name(55), (b'e', b'4'));
    assert_eq!(square_name(21), (b'a', b'1'));
    assert_eq!(square_name(98), (b'h', b'8'));
    assert_eq!(square_name(0), (b'-', b'-'));
    assert_eq!(square_name(99), (b'-', b'-'));
    for sq in 0u8..120 {
        if is_on_board(sq) {
            let (f, r) = square_name(sq);
            assert_eq!(square_from_name(f, r), sq);
        }
    }
}

#[test]
fn no_square_outside_the_board_is_empty() {
    let empty = Board::new();
    let mut start = Board::new();
    assert_eq!(start.set_from_fen(START_FEN), Ok(()));
    let seeded = Board::with_seed(99);
    for sq in 0u8..=255 {
        for board in [&empty, &start, &seeded] {
            let p = board.piece_at(sq);
            if is_on_board(sq) {
                assert_ne!(p, PieceType::OffBoard);
            } else {
                assert_eq!(p, PieceType::OffBoard);
                assert_ne!(p, PieceType::Empty);
            }
        }
        if is_on_board(sq) {
            assert_eq!(empty.piece_at(sq), PieceType::Empty);
        }
    }
}

#[test]
fn a_new_board_is_empty() {
    let board = Board::new();
    assert_eq!(board.side_to_move(), Colours::White);
    assert_eq!(board.castle_rights(), 0);
    assert_eq!(board.en_passant(), NO_SQUARE);
    assert_eq!(board.halfmove_clock(), 0);
    assert_eq!(board.fullmove(), 0);
    assert_eq!(board.history_len(), 0);
    assert_eq!(board.position_key(), board.compute_key());
    assert_eq!(board.position_key(), Board::new().position_key());
    assert_ne!(board.position_key(), Board::with_seed(1).position_key());
}

#[test]
fn names_and_modes() {
    assert_eq!(NAME, "Crust 1.0");
    assert_ne!(GameModes::UciMode, GameModes::ConsoleMode);
    assert_eq!(START_FEN, "rnbqkbnr/pppppppp/8/8/8/8/PPPPPPPP/RNBQKBNR w KQkq - 0 1");
}
