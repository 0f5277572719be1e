use crust::board::Board;
use crust::defines::{Colours, PieceType, MAX_GAME_MOVES, NO_SQUARE, START_FEN};
use crust::history::rights_mask;

fn board_of(fen: &str) -> Board {
    let mut board = Board::new();
    assert_eq!(board.set_from_fen(fen), Ok(()));
    board
}

fn plain(from: u32, to: u32) -> u32 {
    from | (to << 7)
}

#[derive(Debug, PartialEq)]
struct Snapshot {
    pieces: Vec<PieceType>,
    side: Colours,
    rights: u8,
    en_passant: u8,
    halfmove: u32,
    fullmove: u32,
    key: u64,
    depth: usize,
}

fn snapshot(board: &Board) -> Snapshot {
    Snapshot {
        pieces: (0u8..120).map(|sq| board.piece_at(sq)).collect(),
        side: board.side_to_move(),
        rights: board.castle_rights(),
        en_passant: board.en_passant(),
        halfmove: board.halfmove_clock(),
        fullmove: board.fullmove(),
        key: board.position_key(),
        depth: board.history_len(),
    }
}

fn round_trips(board: &mut Board, depth: u32) {
    let before = snapshot(board);
    let list = board.generate_moves().unwrap();
    for i in 0..list.count() {
        let m = list.get(i);
        assert!(board.fits(m));
        if board.make_move(m) {
            assert_eq!(board.position_key(), board.compute_key());
            assert_eq!(board.history_len(), before.depth + 1);
            assert_eq!(board.side_to_move(), before.side.opponent());
            assert!(!board.is_in_check(before.side));
            assert_eq!(board.castle_rights() & !before.rights, 0);
            if depth > 1 {
                round_trips(board, depth - 1);
            }
            board.unmake_move();
        }
        assert_eq!(snapshot(board), before);
    }
}

#[test]
fn make_then_unmake_restores_everything() {
    for fen in [
        START_FEN,
        "r3k2r/p1ppqpb1/bn2pnp1/3PN3/1p2P3/2N2Q1p/PPPBBPPP/R3K2R w KQkq - 0 1",
        "8/2p5/3p4/KP5r/1R3p1k/8/4P1P1/8 w - - 5 9",
        "r3k2r/Pppp1ppp/1b3nbN/nP6/BBP1P3/q4N2/Pp1P2PP/R2Q1RK1 b kq - 0 1",
        "rnbqkbnr/ppp1pppp/8/3pP3/8/8/PPPP1PPP/RNBQKBNR w KQkq d6 0 3",
    ] {
        let mut board = board_of(fen);
        round_trips(&mut board, 2);
    }
}

#[test]
fn a_double_step_sets_the_en_passant_target() {
    let mut board = board_of(START_FEN);
    let start = snapshot(&board);
    assert!(board.make_move(531363));
    assert_eq!(board.piece_at(35), PieceType::Empty);
    assert_eq!(board.piece_at(55), PieceType::WhitePawn);
    assert_eq!(board.en_passant(), 45);
    assert_eq!(board.side_to_move(), Colours::Black);
    assert_eq!(board.halfmove_clock(), 0);
    assert_eq!(board.fullmove(), 1);
    assert_eq!(board.castle_rights(), 15);
    assert_eq!(board.history_len(), 1);
    assert_ne!(board.position_key(), start.key);
    assert_eq!(board.position_key(), board.compute_key());
    assert!(board.make_move(plain(82, 62) | 0x80000));
    assert_eq!(board.en_passant(), 72);
    assert_eq!(board.fullmove(), 2);
    assert!(board.make_move(plain(27, 46)));
    assert_eq!(board.en_passant(), NO_SQUARE);
    assert_eq!(board.halfmove_clock(), 1);
    assert_eq!(board.fullmove(), 2);
    board.unmake_move();
    board.unmake_move();
    board.unmake_move();
    assert_eq!(snapshot(&board), start);
}

#[test]
fn the_clock_counts_quiet_moves_and_starts_again() {
    let mut board = board_of("4k3/8/8/8/8/8/4p3/R3K3 w - - 7 20");
    assert!(board.make_move(plain(21, 22)));
    assert_eq!(board.halfmove_clock(), 8);
    assert_eq!(board.fullmove(), 20);
    assert!(board.make_move(plain(95, 94)));
    assert_eq!(board.halfmove_clock(), 9);
    assert_eq!(board.fullmove(), 21);
    assert!(board.make_move(plain(25, 35) | (7 << 14)));
    assert_eq!(board.halfmove_clock(), 0);
    assert_eq!(board.fullmove(), 21);
    board.unmake_move();
    assert_eq!(board.halfmove_clock(), 9);
    assert_eq!(board.piece_at(35), PieceType::BlackPawn);
    assert_eq!(board.piece_at(25), PieceType::WhiteKing);
}

#[test]
fn an_en_passant_capture_removes_the_pawn_behind_the_target() {
    let mut board = board_of("rnbqkbnr/ppp1pppp/8/3pP3/8/8/PPPP1PPP/RNBQKBNR w KQkq d6 0 3");
    let before = snapshot(&board);
    assert!(board.make_move(271681));
    assert_eq!(board.piece_at(74), PieceType::WhitePawn);
    assert_eq!(board.piece_at(65), PieceType::Empty);
    assert_eq!(board.piece_at(64), PieceType::Empty);
    assert_eq!(board.en_passant(), NO_SQUARE);
    assert_eq!(board.halfmove_clock(), 0);
    assert_eq!(board.position_key(), board.compute_key());
    board.unmake_move();
    assert_eq!(board.piece_at(64), PieceType::BlackPawn);
    assert_eq!(board.piece_at(65), PieceType::WhitePawn);
    assert_eq!(board.piece_at(74), PieceType::Empty);
    assert_eq!(board.en_passant(), 74);
    assert_eq!(snapshot(&board), before);
}

#[test]
fn black_captures_en_passant_downwards() {
    let mut board = board_of("4k3/8/8/8/3pP3/8/8/4K3 b - e3 0 1");
    let before = snapshot(&board);
    assert!(board.make_move(plain(54, 45) | 0x40000));
    assert_eq!(board.piece_at(45), PieceType::BlackPawn);
    assert_eq!(board.piece_at(55), PieceType::Empty);
    assert_eq!(board.piece_at(54), PieceType::Empty);
    board.unmake_move();
    assert_eq!(board.piece_at(55), PieceType::WhitePawn);
    assert_eq!(snapshot(&board), before);
}

#[test]
fn castling_moves_the_rook_too() {
    let mut board = board_of("r3k2r/8/8/8/8/8/8/R3K2R w KQkq - 0 1");
    let before = snapshot(&board);
    assert!(board.make_move(16780697));
    assert_eq!(board.piece_at(27), PieceType::WhiteKing);
    assert_eq!(board.piece_at(26), PieceType::WhiteRook);
    assert_eq!(board.piece_at(25), PieceType::Empty);
    assert_eq!(board.piece_at(28), PieceType::Empty);
    assert_eq!(board.castle_rights(), 12);
    assert_eq!(board.position_key(), board.compute_key());
    assert!(board.make_move(plain(95, 93) | 0x1000000));
    assert_eq!(board.piece_at(93), PieceType::BlackKing);
    assert_eq!(board.piece_at(94), PieceType::BlackRook);
    assert_eq!(board.piece_at(91), PieceType::Empty);
    assert_eq!(board.piece_at(95), PieceType::Empty);
    assert_eq!(board.castle_rights(), 0);
    board.unmake_move();
    board.unmake_move();
    assert_eq!(snapshot(&board), before);
}

#[test]
fn rights_go_with_king_and_rook_and_do_not_return() {
    assert_eq!(rights_mask(21), 13);
    assert_eq!(rights_mask(25), 12);
    assert_eq!(rights_mask(28), 14);
    assert_eq!(rights_mask(91), 7);
    assert_eq!(rights_mask(95), 3);
    assert_eq!(rights_mask(98), 11);
    assert_eq!(rights_mask(55), 15);
    assert_eq!(rights_mask(0), 15);
    let mut board = board_of("r3k2r/8/8/8/8/8/8/R3K2R w KQkq - 0 1");
    assert!(board.make_move(plain(28, 98) | (10 << 14)));
    assert_eq!(board.castle_rights(), 2 | 8);
    assert!(board.make_move(plain(95, 85)));
    assert_eq!(board.castle_rights(), 2);
    assert!(board.make_move(plain(98, 28)));
    assert_eq!(board.castle_rights(), 2);
    assert!(board.make_move(plain(85, 95)));
    assert_eq!(board.castle_rights(), 2);
    assert!(board.make_move(plain(21, 22)));
    assert_eq!(board.castle_rights(), 0);
}

#[test]
fn a_promotion_replaces_the_pawn() {
    let mut board = board_of("1n2k3/P7/8/8/8/8/8/4K3 w - - 0 1");
    let before = snapshot(&board);
    let m = plain(81, 92) | (8 << 14) | (2 << 20);
    assert!(board.make_move(m));
    assert_eq!(board.piece_at(92), PieceType::WhiteKnight);
    assert_eq!(board.piece_at(81), PieceType::Empty);
    assert_eq!(board.position_key(), board.compute_key());
    board.unmake_move();
    assert_eq!(board.piece_at(92), PieceType::BlackKnight);
    assert_eq!(board.piece_at(81), PieceType::WhitePawn);
    assert_eq!(snapshot(&board), before);
}

#[test]
fn a_move_that_exposes_the_king_is_rejected() {
    let mut board = board_of("4r3/8/8/8/8/8/4B3/4K3 w - - 0 1");
    let before = snapshot(&board);
    assert!(board.fits(plain(35, 44)));
    assert!(!board.make_move(plain(35, 44)));
    assert_eq!(snapshot(&board), before);
    assert!(board.is_pseudo_legal(plain(35, 44)));
    assert!(board.make_move(plain(25, 24)));
    let mut checked = board_of("4r3/8/8/8/8/8/8/4K2R w K - 0 1");
    let before = snapshot(&checked);
    assert!(!checked.make_move(plain(28, 27)));
    assert!(!checked.make_move(plain(25, 35)));
    assert_eq!(snapshot(&checked), before);
    assert!(checked.make_move(plain(25, 24)));
}

#[test]
fn a_move_that_does_not_fit_is_rejected() {
    let mut board = board_of(START_FEN);
    let before = snapshot(&board);
    let bad = [
        0,
        plain(0, 21),
        plain(21, 0),
        plain(120, 127),
        plain(35, 35),
        plain(45, 55),
        plain(85, 75),
        plain(21, 31),
        plain(21, 41),
        plain(22, 42),
        plain(35, 46),
        plain(35, 45) | (1 << 14),
        plain(35, 45) | (5 << 20),
        plain(35, 45) | 0x40000,
        plain(35, 45) | 0x80000,
        plain(35, 55),
        plain(27, 46) | 0x80000,
        plain(25, 27) | 0x1000000,
        plain(27, 46) | 0x1000000,
        0xffff_ffff,
    ];
    for m in bad {
        assert!(!board.is_pseudo_legal(m));
        assert!(!board.fits(m));
        assert!(!board.make_move(m));
        assert_eq!(snapshot(&board), before);
    }
    assert!(board.fits(plain(35, 45)));
    assert!(board.fits(plain(35, 55) | 0x80000));
}

#[test]
fn the_history_holds_the_longest_game_and_no_more() {
    let mut board = board_of(START_FEN);
    let start = snapshot(&board);
    let cycle = [plain(27, 46), plain(97, 76), plain(46, 27), plain(76, 97)];
    for ply in 0..MAX_GAME_MOVES {
        assert!(board.make_move(cycle[ply % 4]));
    }
    assert_eq!(board.history_len(), MAX_GAME_MOVES);
    assert_eq!(board.halfmove_clock(), 2048);
    assert_eq!(board.fullmove(), 1025);
    assert_eq!(board.position_key(), start.key);
    let full = snapshot(&board);
    assert!(!board.fits(cycle[0]));
    assert!(!board.make_move(cycle[0]));
    assert_eq!(snapshot(&board), full);
    for _ in 0..MAX_GAME_MOVES {
        board.unmake_move();
    }
    assert_eq!(snapshot(&board), start);
}

#[test]
fn capturing_a_rook_in_its_corner_takes_the_right() {
    let mut board = board_of("r3k2r/8/8/8/8/8/6b1/R3K2R b KQkq - 0 1");
    assert!(board.make_move(plain(37, 28) | (4 << 14)));
    assert_eq!(board.piece_at(28), PieceType::BlackBishop);
    assert_eq!(board.castle_rights(), 14);
    board.unmake_move();
    assert_eq!(board.castle_rights(), 15);
    assert_eq!(board.piece_at(28), PieceType::WhiteRook);
    assert_eq!(board.piece_at(37), PieceType::BlackBishop);
}

#[test]
fn only_generated_moves_are_pseudo_legal() {
    for fen in [
        START_FEN,
        "r3k2r/p1ppqpb1/bn2pnp1/3PN3/1p2P3/2N2Q1p/PPPBBPPP/R3K2R w KQkq - 0 1",
        "rnbqkbnr/ppp1pppp/8/3pP3/8/8/PPPP1PPP/RNBQKBNR w KQkq d6 0 3",
        "1n2k3/P7/8/8/8/8/8/4K3 w - - 0 1",
    ] {
        let board = board_of(fen);
        let list = board.generate_moves().unwrap();
        let moves: Vec<u32> = (0..list.count()).map(|i| list.get(i)).collect();
        for m in &moves {
            assert!(board.is_pseudo_legal(*m));
        }
        for from in 0u32..128 {
            for to in 0u32..128 {
                for extra in [0u32, 0x40000, 0x80000, 0x1000000, 5 << 20, 7 << 14] {
                    let m = plain(from, to) | extra;
                    assert_eq!(board.is_pseudo_legal(m), moves.contains(&m));
                }
            }
        }
    }
}
