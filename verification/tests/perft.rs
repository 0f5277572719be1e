use crust::board::Board;
use crust::defines::START_FEN;

fn perft(board: &mut Board, depth: u32) -> u64 {
    if depth == 0 {
        return 1;
    }
    let list = board.generate_moves().unwrap();
    let mut nodes = 0;
    for i in 0..list.count() {
        let m = list.get(i);
        if board.make_move(m) {
            nodes += perft(board, depth - 1);
            board.unmake_move();
        }
    }
    nodes
}

fn perft_of(fen: &str, depth: u32) -> u64 {
    let mut board = Board::new();
    assert!(board.set_from_fen(fen).is_ok());
    let key = board.position_key();
    let nodes = perft(&mut board, depth);
    assert_eq!(board.position_key(), key);
    assert_eq!(board.compute_key(), key);
    assert_eq!(board.history_len(), 0);
    nodes
}

#[test]
fn perft_start_depth_1() {
    assert_eq!(perft_of(START_FEN, 1), 20);
}

#[test]
fn perft_start_depth_2() {
    assert_eq!(perft_of(START_FEN, 2), 400);
}

#[test]
fn perft_start_depth_3() {
    assert_eq!(perft_of(START_FEN, 3), 8902);
}

#[test]
fn perft_start_depth_4() {
    assert_eq!(perft_of(START_FEN, 4), 197281);
}

#[test]
fn perft_castling_and_pins() {
    let fen = "r3k2r/p1ppqpb1/bn2pnp1/3PN3/1p2P3/2N2Q1p/PPPBBPPP/R3K2R w KQkq - 0 1";
    assert_eq!(perft_of(fen, 1), 48);
    assert_eq!(perft_of(fen, 2), 2039);
    assert_eq!(perft_of(fen, 3), 97862);
}

#[test]
fn perft_en_passant_endgame() {
    let fen = "8/2p5/3p4/KP5r/1R3p1k/8/4P1P1/8 w - - 0 1";
    assert_eq!(perft_of(fen, 1), 14);
    assert_eq!(perft_of(fen, 2), 191);
    assert_eq!(perft_of(fen, 3), 2812);
    assert_eq!(perft_of(fen, 4), 43238);
}

#[test]
fn perft_promotions() {
    let fen = "r3k2r/Pppp1ppp/1b3nbN/nP6/BBP1P3/q4N2/Pp1P2PP/R2Q1RK1 w kq - 0 1";
    assert_eq!(perft_of(fen, 1), 6);
    assert_eq!(perft_of(fen, 2), 264);
    assert_eq!(perft_of(fen, 3), 9467);
}

#[test]
fn perft_promotion_with_check() {
    let fen = "rnbq1k1r/pp1Pbppp/2p5/8/2B5/8/PPP1NnPP/RNBQK2R w KQ - 1 8";
    assert_eq!(perft_of(fen, 1), 44);
    assert_eq!(perft_of(fen, 2), 1486);
    assert_eq!(perft_of(fen, 3), 62379);
}
