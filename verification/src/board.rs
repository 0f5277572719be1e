use vstd::prelude::*;
use crate::defines::{
    is_on_board, on_board, Colours, PieceType, Undo, BOARD_SQUARE_NUM, MAX_GAME_MOVES, NO_SQUARE,
};
use crate::zobrist::{copy_vec, table_of, KeyTable, ZobristKeys, DEFAULT_SEED};

verus! {

/// Largest halfmove clock and fullmove number a position can start from.
pub const MAX_COUNTER: u32 = 65535;

/// A board as a mathematical value.
pub struct BoardState {
    /// The piece on each of the 120 squares of the padded board.
    pub placement: Seq<PieceType>,
    pub side: Colours,
    /// The castling rights, four bits.
    pub castle_rights: u8,
    /// The padded index of the en-passant target, `NO_SQUARE` if there is none.
    pub en_passant: u8,
    pub halfmove_clock: u32,
    pub fullmove: u32,
    /// The position key.
    pub key: u64,
    /// One record for each move made and not taken back, the latest last.
    pub history: Seq<Undo>,
}

/// A placement has the shape of the padded board: 120 squares, and the off-board sentinel
/// on exactly those outside the playable area.
pub open spec fn board_shape(placement: Seq<PieceType>) -> bool {
    &&& placement.len() == BOARD_SQUARE_NUM
    &&& forall|sq: int|
        0 <= sq < BOARD_SQUARE_NUM ==> ((#[trigger] placement[sq] == PieceType::OffBoard)
            <==> !on_board(sq))
}

/// What holds of a board whatever its history: the placement has the board's shape, a
/// player is to move, the rights are four bits, the en-passant target is a playable square
/// or none, the counters are in their bounds, and the key is the hash of the position.
pub open spec fn position_wf(t: KeyTable, s: BoardState) -> bool {
    &&& t.wf()
    &&& board_shape(s.placement)
    &&& s.side.spec_is_player()
    &&& s.castle_rights < 16
    &&& (s.en_passant == NO_SQUARE || on_board(s.en_passant as int))
    &&& s.history.len() <= MAX_GAME_MOVES
    &&& s.halfmove_clock <= MAX_COUNTER + s.history.len()
    &&& s.fullmove <= MAX_COUNTER + s.history.len()
    &&& s.key == t.position_hash(s.placement, s.side, s.castle_rights, s.en_passant)
}

/// The placement of the board without pieces.
pub open spec fn empty_placement() -> Seq<PieceType> {
    Seq::new(
        BOARD_SQUARE_NUM as nat,
        |sq: int|
            if on_board(sq) {
                PieceType::Empty
            } else {
                PieceType::OffBoard
            },
    )
}

/// The board without pieces: White to move, no rights, no en-passant target, both counters
/// at zero, nothing to take back.
pub open spec fn empty_state(t: KeyTable) -> BoardState {
    BoardState {
        placement: empty_placement(),
        side: Colours::White,
        castle_rights: 0,
        en_passant: NO_SQUARE,
        halfmove_clock: 0,
        fullmove: 0,
        key: t.position_hash(empty_placement(), Colours::White, 0, NO_SQUARE),
        history: Seq::empty(),
    }
}

/// The board: the position, its key, the history of the moves made on it, and the keys its
/// hash is made of.
pub struct Board {
    pub(crate) pieces: Vec<PieceType>,
    pub(crate) side: Colours,
    pub(crate) castle_rights: u8,
    pub(crate) en_passant: u8,
    pub(crate) halfmove_clock: u32,
    pub(crate) fullmove: u32,
    pub(crate) key: u64,
    pub(crate) history: Vec<Undo>,
    pub(crate) keys: ZobristKeys,
}

impl View for Board {
    type V = BoardState;

    open(crate) spec fn view(&self) -> BoardState {
        BoardState {
            placement: self.pieces@,
            side: self.side,
            castle_rights: self.castle_rights,
            en_passant: self.en_passant,
            halfmove_clock: self.halfmove_clock,
            fullmove: self.fullmove,
            key: self.key,
            history: self.history@,
        }
    }
}

/// The placement of the board without pieces, as a vector.
pub(crate) fn empty_pieces() -> (pieces: Vec<PieceType>)
    ensures
        pieces@ == empty_placement(),
{
    let mut pieces: Vec<PieceType> = Vec::new();
    let mut sq: u8 = 0;
    while sq < 120
        invariant
            sq <= 120,
            pieces@.len() == sq,
            forall|i: int| 0 <= i < sq ==> #[trigger] pieces@[i] == empty_placement()[i],
        decreases 120 - sq,
    {
        if is_on_board(sq) {
            pieces.push(PieceType::Empty);
        } else {
            pieces.push(PieceType::OffBoard);
        }
        sq += 1;
    }
    assert(pieces@ =~= empty_placement());
    pieces
}

/// The hash of a position, computed square by square.
pub(crate) fn hash_position(
    keys: &ZobristKeys,
    pieces: &Vec<PieceType>,
    side: Colours,
    rights: u8,
    ep: u8,
) -> (key: u64)
    requires
        keys.wf(),
        pieces@.len() == BOARD_SQUARE_NUM,
        rights < 16,
    ensures
        key == keys@.position_hash(pieces@, side, rights, ep),
{
    let mut key: u64 = 0;
    let mut sq: u8 = 0;
    while sq < 120
        invariant
            sq <= 120,
            keys.wf(),
            pieces@.len() == BOARD_SQUARE_NUM,
            key == keys@.placement_hash(pieces@, sq as int),
        decreases 120 - sq,
    {
        key = key ^ keys.piece_key(pieces[sq as usize], sq);
        sq += 1;
    }
    key ^ keys.side_key(side) ^ keys.castle_key(rights) ^ keys.en_passant_key(ep)
}

impl Board {
    /// The keys the board hashes with.
    pub open(crate) spec fn key_table(&self) -> KeyTable {
        self.keys@
    }

    /// The position of the board is well formed, whatever its history: what the functions
    /// that only read the board ask for, and what holds between the steps of a move.
    pub open spec fn inv(&self) -> bool {
        position_wf(self.key_table(), self@)
    }

    /// The board without pieces, with the keys of the default seed.
    pub fn new() -> (board: Board)
        ensures
            board.key_table() == table_of(DEFAULT_SEED),
            board@ == empty_state(table_of(DEFAULT_SEED)),
            board.wf(),
    {
        Board::with_seed(DEFAULT_SEED)
    }

    /// The board without pieces, with the keys of a seed.
    pub fn with_seed(seed: u64) -> (board: Board)
        ensures
            board.key_table() == table_of(seed),
            board@ == empty_state(table_of(seed)),
            board.wf(),
    {
        let keys = ZobristKeys::new(seed);
        let pieces = empty_pieces();
        let key = hash_position(&keys, &pieces, Colours::White, 0, NO_SQUARE);
        Board {
            pieces,
            side: Colours::White,
            castle_rights: 0,
            en_passant: NO_SQUARE,
            halfmove_clock: 0,
            fullmove: 0,
            key,
            history: Vec::new(),
            keys,
        }
    }

    /// A copy of the board that shares nothing with it: the same position, the same
    /// history, the same keys.
    pub fn duplicate(&self) -> (board: Board)
        ensures
            board@ == self@,
            board.key_table() == self.key_table(),
            board.wf() == self.wf(),
    {
        Board {
            pieces: copy_vec(&self.pieces),
            side: self.side,
            castle_rights: self.castle_rights,
            en_passant: self.en_passant,
            halfmove_clock: self.halfmove_clock,
            fullmove: self.fullmove,
            key: self.key,
            history: copy_vec(&self.history),
            keys: self.keys.duplicate(),
        }
    }

    /// The piece on a square; the off-board sentinel for every square outside the playable
    /// area, whether or not the padded board has it.
    pub fn piece_at(&self, sq: u8) -> (p: PieceType)
        requires
            self.inv(),
        ensures
            on_board(sq as int) ==> p == self@.placement[sq as int] && p != PieceType::OffBoard,
            !on_board(sq as int) ==> p == PieceType::OffBoard,
    {
        if sq < 120 {
            self.pieces[sq as usize]
        } else {
            PieceType::OffBoard
        }
    }

    /// The side to move.
    pub fn side_to_move(&self) -> (side: Colours)
        ensures
            side == self@.side,
    {
        self.side
    }

    /// The castling rights.
    pub fn castle_rights(&self) -> (rights: u8)
        ensures
            rights == self@.castle_rights,
    {
        self.castle_rights
    }

    /// The en-passant target, `NO_SQUARE` if there is none.
    pub fn en_passant(&self) -> (sq: u8)
        ensures
            sq == self@.en_passant,
    {
        self.en_passant
    }

    /// The halfmove clock.
    pub fn halfmove_clock(&self) -> (n: u32)
        ensures
            n == self@.halfmove_clock,
    {
        self.halfmove_clock
    }

    /// The fullmove number.
    pub fn fullmove(&self) -> (n: u32)
        ensures
            n == self@.fullmove,
    {
        self.fullmove
    }

    /// The position key.
    pub fn position_key(&self) -> (key: u64)
        ensures
            key == self@.key,
            self.inv() ==> key == self.key_table().position_hash(
                self@.placement,
                self@.side,
                self@.castle_rights,
                self@.en_passant,
            ),
    {
        self.key
    }

    /// The number of moves that can be taken back.
    pub fn history_len(&self) -> (n: usize)
        ensures
            n == self@.history.len(),
    {
        self.history.len()
    }

    /// The position key computed from scratch.
    pub fn compute_key(&self) -> (key: u64)
        requires
            self.inv(),
        ensures
            key == self.key_table().position_hash(
                self@.placement,
                self@.side,
                self@.castle_rights,
                self@.en_passant,
            ),
            key == self@.key,
    {
        hash_position(&self.keys, &self.pieces, self.side, self.castle_rights, self.en_passant)
    }
}

} // verus!
