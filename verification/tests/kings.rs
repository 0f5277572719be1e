use crust::board::Board;
use crust::defines::{PieceType, START_FEN};

fn board_of(fen: &str) -> Board {
    let mut board = Board::new();
    assert_eq!(board.set_from_fen(fen), Ok(()));
    board
}

#[test]
fn active_positions() {
    assert!(board_of(START_FEN).is_active());
    assert!(board_of("4k3/8/8/8/8/8/8/4K2R w K - 0 1").is_active());
    assert!(board_of("4k3/8/8/8/8/8/8/4R2K b - - 0 1").is_active());
    assert!(board_of("4k3/8/8/8/8/8/8/4R2K b - - 0 1").is_in_check(crust::defines::Colours::Black));
}

#[test]
fn positions_that_are_not_active() {
    assert!(!Board::new().is_active());
    assert!(!board_of("8/8/8/8/8/8/8/4K3 w - - 0 1").is_active());
    assert!(!board_of("4k3/8/8/8/8/8/8/8 w - - 0 1").is_active());
    assert!(!board_of("4k3/8/8/8/8/8/8/3KK3 w - - 0 1").is_active());
    assert!(!board_of("3kk3/8/8/8/8/8/8/4K3 w - - 0 1").is_active());
    assert!(!board_of("4k3/8/8/8/8/8/8/4R2K w - - 0 1").is_active());
    assert!(!board_of("4k3/4K3/8/8/8/8/8/8 w - - 0 1").is_active());
}

fn stays_active(board: &mut Board, depth: u32) {
    assert!(board.is_active());
    if depth == 0 {
        return;
    }
    let list = board.generate_moves().unwrap();
    for i in 0..list.count() {
        let m = list.get(i);
        let target = board.piece_at(crust::defines::ToSq(m) as u8);
        if board.make_move(m) {
            assert!(!target.is_king());
            stays_active(board, depth - 1);
            board.unmake_move();
        }
    }
}

#[test]
fn legal_moves_keep_the_game_active() {
    for fen in [
        START_FEN,
        "r3k2r/p1ppqpb1/bn2pnp1/3PN3/1p2P3/2N2Q1p/PPPBBPPP/R3K2R w KQkq - 0 1",
        "8/2p5/3p4/KP5r/1R3p1k/8/4P1P1/8 w - - 0 1",
        "rnbq1k1r/pp1Pbppp/2p5/8/2B5/8/PPP1NnPP/RNBQK2R w KQ - 1 8",
    ] {
        let mut board = board_of(fen);
        stays_active(&mut board, 2);
    }
}

#[test]
fn a_king_can_be_captured_where_the_game_is_not_active() {
    let mut board = board_of("4k3/8/8/8/8/8/8/4R2K w - - 0 1");
    assert!(!board.is_active());
    assert!(board.make_move(25 | (95 << 7) | (12 << 14)));
    assert_eq!(board.piece_at(95), PieceType::WhiteRook);
    assert!(!board.is_active());
}

#[test]
fn a_copy_is_a_board_of_its_own() {
    let mut board = board_of(START_FEN);
    assert!(board.make_move(531363));
    let mut copy = board.duplicate();
    assert_eq!(copy.position_key(), board.position_key());
    assert_eq!(copy.history_len(), 1);
    assert_eq!(copy.piece_at(55), PieceType::WhitePawn);
    assert!(copy.make_move(85 | (65 << 7) | 0x80000));
    assert_eq!(board.piece_at(85), PieceType::BlackPawn);
    assert_eq!(board.history_len(), 1);
    assert_ne!(copy.position_key(), board.position_key());
    copy.unmake_move();
    copy.unmake_move();
    assert_eq!(copy.position_key(), board_of(START_FEN).position_key());
    assert_eq!(board.history_len(), 1);
}
