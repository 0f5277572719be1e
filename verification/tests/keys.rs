use crust::board::Board;
use crust::defines::{Colours, PieceType, NO_SQUARE, START_FEN};
use crust::zobrist::{copy_vec, ZobristKeys, DEFAULT_SEED};

fn key_of(fen: &str) -> u64 {
    let mut board = Board::new();
    assert_eq!(board.set_from_fen(fen), Ok(()));
    assert_eq!(board.position_key(), board.compute_key());
    board.position_key()
}

#[test]
fn the_same_seed_gives_the_same_keys() {
    let a = ZobristKeys::new(DEFAULT_SEED);
    let b = ZobristKeys::new(DEFAULT_SEED);
    for code in 0u32..13 {
        let p = PieceType::from_code(code);
        for sq in 0u8..120 {
            assert_eq!(a.piece_key(p, sq), b.piece_key(p, sq));
        }
    }
    for rights in 0u8..16 {
        assert_eq!(a.castle_key(rights), b.castle_key(rights));
    }
    assert_eq!(a.side_key(Colours::Black), b.side_key(Colours::Black));
}

#[test]
fn keys_are_tagged_with_their_place() {
    for seed in [0u64, 1, DEFAULT_SEED, u64::MAX] {
        let keys = ZobristKeys::new(seed);
        for code in 1u32..13 {
            let p = PieceType::from_code(code);
            for sq in 0u8..120 {
                let index = code as u64 * 120 + sq as u64;
                assert_eq!(keys.piece_key(p, sq) & 0x7ff, index + 1);
            }
        }
        assert_eq!(keys.side_key(Colours::Black) & 0x7ff, 1561);
        for rights in 0u8..16 {
            assert_eq!(keys.castle_key(rights) & 0x7ff, 1562 + rights as u64);
        }
    }
}

#[test]
fn the_first_key_follows_the_generator() {
    let keys = ZobristKeys::new(1);
    let mut x: u64 = 1;
    x ^= x << 13;
    x ^= x >> 7;
    x ^= x << 17;
    assert_eq!(x, 1082269761);
    assert_eq!(keys.en_passant_key(0), (x & !0x7ff) | 1);
    let mut y = x;
    y ^= y << 13;
    y ^= y >> 7;
    y ^= y << 17;
    assert_eq!(keys.en_passant_key(1), (y & !0x7ff) | 2);
}

#[test]
fn no_key_for_nothing() {
    let keys = ZobristKeys::new(DEFAULT_SEED);
    for sq in 0u8..120 {
        assert_eq!(keys.piece_key(PieceType::Empty, sq), 0);
        assert_eq!(keys.piece_key(PieceType::OffBoard, sq), 0);
    }
    assert_eq!(keys.side_key(Colours::White), 0);
    assert_eq!(keys.side_key(Colours::Both), 0);
    assert_ne!(keys.side_key(Colours::Black), 0);
    assert_eq!(keys.en_passant_key(NO_SQUARE), 0);
    assert_eq!(keys.en_passant_key(120), 0);
    assert_eq!(keys.en_passant_key(255), 0);
    assert_ne!(keys.en_passant_key(45), 0);
}

#[test]
fn all_keys_of_a_table_differ() {
    let keys = ZobristKeys::new(DEFAULT_SEED);
    let mut all: Vec<u64> = Vec::new();
    for sq in 0u8..120 {
        if sq != NO_SQUARE {
            all.push(keys.en_passant_key(sq));
        }
    }
    for code in 1u32..13 {
        for sq in 0u8..120 {
            all.push(keys.piece_key(PieceType::from_code(code), sq));
        }
    }
    all.push(keys.side_key(Colours::Black));
    for rights in 0u8..16 {
        all.push(keys.castle_key(rights));
    }
    assert!(all.iter().all(|k| *k != 0));
    let n = all.len();
    all.sort();
    all.dedup();
    assert_eq!(all.len(), n);
}

#[test]
fn the_same_text_gives_the_same_key() {
    assert_eq!(key_of(START_FEN), key_of(START_FEN));
    let fen = "r3k2r/p1ppqpb1/bn2pnp1/3PN3/1p2P3/2N2Q1p/PPPBBPPP/R3K2R w KQkq - 0 1";
    assert_eq!(key_of(fen), key_of(fen));
}

#[test]
fn the_key_leaves_the_counters_out() {
    assert_eq!(
        key_of("rnbqkbnr/pppppppp/8/8/8/8/PPPPPPPP/RNBQKBNR w KQkq - 0 1"),
        key_of("rnbqkbnr/pppppppp/8/8/8/8/PPPPPPPP/RNBQKBNR w KQkq - 30 77")
    );
}

#[test]
fn the_key_is_the_xor_of_its_parts() {
    let keys = ZobristKeys::new(DEFAULT_SEED);
    let expected = keys.piece_key(PieceType::WhiteKing, 25)
        ^ keys.piece_key(PieceType::BlackKing, 95)
        ^ keys.piece_key(PieceType::BlackPawn, 54)
        ^ keys.side_key(Colours::Black)
        ^ keys.castle_key(5)
        ^ keys.en_passant_key(44);
    assert_eq!(key_of("4k3/8/8/8/3p4/8/8/4K3 b Kk d3 0 1"), expected);
    assert_eq!(key_of("8/8/8/8/8/8/8/8 w - - 0 1"), keys.castle_key(0));
    let board = Board::new();
    assert_eq!(board.position_key(), keys.castle_key(0));
    let seeded = Board::with_seed(7);
    assert_eq!(seeded.position_key(), ZobristKeys::new(7).castle_key(0));
}

#[test]
fn a_change_of_side_changes_the_key() {
    assert_ne!(
        key_of("rnbqkbnr/pppppppp/8/8/8/8/PPPPPPPP/RNBQKBNR w KQkq - 0 1"),
        key_of("rnbqkbnr/pppppppp/8/8/8/8/PPPPPPPP/RNBQKBNR b KQkq - 0 1")
    );
}

#[test]
fn a_change_of_rights_changes_the_key() {
    let rights = ["-", "K", "Q", "KQ", "k", "Kk", "Qk", "KQk", "q", "Kq", "Qq", "KQq", "kq", "Kkq", "Qkq", "KQkq"];
    let keys: Vec<u64> = rights
        .iter()
        .map(|r| key_of(&format!("r3k2r/8/8/8/8/8/8/R3K2R w {} - 0 1", r)))
        .collect();
    for i in 0..16 {
        for j in 0..i {
            assert_ne!(keys[i], keys[j]);
        }
    }
}

#[test]
fn a_change_of_en_passant_target_changes_the_key() {
    let base = key_of("4k3/8/8/8/8/8/8/4K3 w - - 0 1");
    let mut seen = vec![base];
    for file in b'a'..=b'h' {
        for rank in b'1'..=b'8' {
            let fen = format!("4k3/8/8/8/8/8/8/4K3 w - {}{} 0 1", file as char, rank as char);
            let key = key_of(&fen);
            assert!(!seen.contains(&key));
            seen.push(key);
        }
    }
}

#[test]
fn a_change_of_one_square_changes_the_key() {
    let base = key_of("8/8/8/8/8/8/8/8 w - - 0 1");
    let mut seen = vec![base];
    for letter in ["P", "N", "B", "R", "Q", "K", "p", "n", "b", "r", "q", "k"] {
        let key = key_of(&format!("8/8/8/8/3{}4/8/8/8 w - - 0 1", letter));
        assert!(!seen.contains(&key));
        seen.push(key);
    }
    assert_ne!(
        key_of("8/8/8/8/3Q4/8/8/8 w - - 0 1"),
        key_of("8/8/8/8/4Q3/8/8/8 w - - 0 1")
    );
}

#[test]
fn two_orders_of_the_same_moves_give_the_same_key() {
    let mut a = Board::new();
    let mut b = Board::new();
    assert_eq!(a.set_from_fen(START_FEN), Ok(()));
    assert_eq!(b.set_from_fen(START_FEN), Ok(()));
    let nf3 = 27 | (46 << 7);
    let nc3 = 22 | (43 << 7);
    let nf6 = 97 | (76 << 7);
    let nc6 = 92 | (73 << 7);
    for m in [nf3, nf6, nc3, nc6] {
        assert!(a.make_move(m));
        assert_eq!(a.position_key(), a.compute_key());
    }
    for m in [nc3, nc6, nf3, nf6] {
        assert!(b.make_move(m));
    }
    assert_eq!(a.position_key(), b.position_key());
    assert_eq!(
        a.position_key(),
        key_of("r1bqkb1r/pppppppp/2n2n2/8/8/2N2N2/PPPPPPPP/R1BQKB1R w KQkq - 4 3")
    );
}

#[test]
fn copies_hold_the_same_values() {
    assert_eq!(copy_vec(&vec![3u64, 1, 2]), vec![3, 1, 2]);
    assert_eq!(copy_vec(&Vec::<u8>::new()), Vec::<u8>::new());
    let keys = ZobristKeys::new(5);
    let copy = keys.duplicate();
    for sq in 0u8..120 {
        assert_eq!(copy.piece_key(PieceType::BlackQueen, sq), keys.piece_key(PieceType::BlackQueen, sq));
        assert_eq!(copy.en_passant_key(sq), keys.en_passant_key(sq));
    }
    assert_eq!(copy.side_key(Colours::Black), keys.side_key(Colours::Black));
    assert_eq!(copy.castle_key(15), keys.castle_key(15));
}
