use vstd::prelude::*;
use crate::attack::{in_check, side_in_check};
use crate::board::{board_shape, position_wf, Board, BoardState};
use crate::defines::{
    captured, from_sq, is_castle, is_en_passant, is_pawn_start, on_board, pawn_of, promoted,
    rook_of, spec_is_castle, spec_is_en_passant, spec_is_pawn_start, spec_pawn_of, spec_rook_of,
    to_sq, Captured, Colours, FromSq, PieceType, Promoted, ToSq, Undo, MAX_GAME_MOVES, NO_SQUARE,
};
use crate::generated::lemma_pseudo_legal_moves_sound;
use crate::movegen::pseudo_legal_moves;
use crate::zobrist::{lemma_placement_hash_update, KeyTable};

verus! {

/// The rights that remain when a piece leaves a square or is captured on it: a king's home
/// square takes both rights of its side, a rook's corner takes one.
pub open spec fn spec_rights_mask(sq: int) -> u8 {
    if sq == 21 {
        13
    } else if sq == 25 {
        12
    } else if sq == 28 {
        14
    } else if sq == 91 {
        7
    } else if sq == 95 {
        3
    } else if sq == 98 {
        11
    } else {
        15
    }
}

pub fn rights_mask(sq: u8) -> (mask: u8)
    ensures
        mask == spec_rights_mask(sq as int),
{
    if sq == 21 {
        13
    } else if sq == 25 {
        12
    } else if sq == 28 {
        14
    } else if sq == 91 {
        7
    } else if sq == 95 {
        3
    } else if sq == 98 {
        11
    } else {
        15
    }
}

/// The castling rights after a move between two squares.
pub open spec fn rights_after(rights: u8, from: int, to: int) -> u8 {
    rights & spec_rights_mask(from) & spec_rights_mask(to)
}

/// A move takes rights away and gives none back; the rights it leaves are rights that
/// both its squares leave. So a move from or to a king's home square leaves that side no
/// right, and a move from or to a corner leaves no right to castle with that corner's rook,
/// whether the rook moved away or was captured there.
pub proof fn lemma_rights_never_return(rights: u8, from: int, to: int)
    ensures
        rights_after(rights, from, to) & !rights == 0,
        rights_after(rights, from, to) <= rights,
        rights_after(rights, from, to) & !spec_rights_mask(from) == 0,
        rights_after(rights, from, to) & !spec_rights_mask(to) == 0,
{
    let a = spec_rights_mask(from);
    let b = spec_rights_mask(to);
    assert((rights & a & b) & !rights == 0 && (rights & a & b) <= rights && (rights & a & b) & !a
        == 0 && (rights & a & b) & !b == 0) by (bit_vector);
}

/// The square of the pawn that an en-passant capture to `to` removes: the square behind
/// `to`, as the capturing side sees it.
pub open spec fn ep_victim(mover: Colours, to: int) -> int {
    if mover == Colours::White {
        to - 10
    } else {
        to + 10
    }
}

/// The square a pawn passes over on its double step.
pub open spec fn passed_square(mover: Colours, from: int) -> int {
    if mover == Colours::White {
        from + 10
    } else {
        from - 10
    }
}

/// A king's step from its home square to one of its two castling squares.
pub open spec fn castle_shape(mover: Colours, from: int, to: int) -> bool {
    match mover {
        Colours::White => from == 25 && (to == 27 || to == 23),
        Colours::Black => from == 95 && (to == 97 || to == 93),
        Colours::Both => false,
    }
}

/// The corner the rook leaves when the king castles to `to`.
pub open spec fn castle_rook_from(to: int) -> int {
    if to == 27 {
        28
    } else if to == 23 {
        21
    } else if to == 97 {
        98
    } else {
        91
    }
}

/// The square the rook lands on when the king castles to `to`.
pub open spec fn castle_rook_to(to: int) -> int {
    if to == 27 {
        26
    } else if to == 23 {
        24
    } else if to == 97 {
        96
    } else {
        94
    }
}

/// A move suits a position: its squares are playable and differ,
/// a piece of the side to move stands on its origin, its captured piece is what stands on its
/// destination and no piece of the mover, and each of its marks agrees with the board.
///   - A promotion is a pawn's, to a piece of the mover that is neither pawn nor king.
///   - An en-passant capture is a pawn's, to the empty en-passant target, with a pawn of the
///     other side on the square behind it.
///   - A double step is a pawn's, two ranks forward onto an empty square.
///   - Castling is a king's, from its home square to an empty castling square, with its own
///     rook in the corner and an empty square for the rook to land on.
pub open spec fn move_suits(s: BoardState, m: u32) -> bool {
    let from = from_sq(m) as int;
    let to = to_sq(m) as int;
    let piece = s.placement[from];
    let target = s.placement[to];
    let prom = PieceType::spec_from_code(promoted(m));
    &&& on_board(from)
    &&& on_board(to)
    &&& from != to
    &&& piece.spec_colour() == s.side
    &&& target.spec_colour() != s.side
    &&& captured(m) == target.spec_code()
    &&& promoted(m) != 0 ==> piece.spec_is_pawn() && prom.spec_colour() == s.side
        && !prom.spec_is_pawn() && !prom.spec_is_king()
    &&& spec_is_en_passant(m) ==> piece.spec_is_pawn() && target == PieceType::Empty && to
        == s.en_passant && s.placement[ep_victim(s.side, to)] == spec_pawn_of(
        s.side.spec_opponent(),
    ) && promoted(m) == 0 && !spec_is_pawn_start(m) && !spec_is_castle(m)
    &&& spec_is_pawn_start(m) ==> piece.spec_is_pawn() && target == PieceType::Empty && to
        == passed_square(s.side, passed_square(s.side, from)) && promoted(m) == 0
        && !spec_is_castle(m)
    &&& spec_is_castle(m) ==> piece.spec_is_king() && castle_shape(s.side, from, to) && target
        == PieceType::Empty && s.placement[castle_rook_from(to)] == spec_rook_of(s.side)
        && s.placement[castle_rook_to(to)] == PieceType::Empty && promoted(m) == 0
}

/// A move can be made on a board: it is one of the pseudo-legal moves of the position, and
/// the history has room for one more record.
pub open spec fn move_fits(s: BoardState, m: u32) -> bool {
    pseudo_legal_moves(s).contains(m) && s.history.len() < MAX_GAME_MOVES
}

/// The placement after a move: the piece, or what it is promoted to, stands on the
/// destination; the origin is empty; an en-passant capture empties the square behind the
/// destination; castling moves the rook as well.
pub open spec fn placement_after(s: BoardState, m: u32) -> Seq<PieceType> {
    let from = from_sq(m) as int;
    let to = to_sq(m) as int;
    let piece = s.placement[from];
    let moved = if promoted(m) != 0 {
        PieceType::spec_from_code(promoted(m))
    } else {
        piece
    };
    let stepped = s.placement.update(from, PieceType::Empty).update(to, moved);
    let cleared = if spec_is_en_passant(m) {
        stepped.update(ep_victim(s.side, to), PieceType::Empty)
    } else {
        stepped
    };
    if spec_is_castle(m) {
        cleared.update(castle_rook_from(to), PieceType::Empty).update(
            castle_rook_to(to),
            spec_rook_of(s.side),
        )
    } else {
        cleared
    }
}

/// The record that a move leaves in the history.
pub open spec fn undo_of(s: BoardState, m: u32) -> Undo {
    Undo {
        move_: m,
        castle_permissions: s.castle_rights,
        en_passant_square: s.en_passant,
        fifty_move: s.halfmove_clock,
        pos_key: s.key,
    }
}

/// The board after a move that fits it.
///   - The halfmove clock starts again at a pawn's move and at a capture, and counts on
///     otherwise; the fullmove number counts the second player's moves.
///   - A double step leaves the square it passed over as en-passant target; any other move
///     leaves none.
///   - The key is the hash of the new position.
pub open spec fn apply_move(t: KeyTable, s: BoardState, m: u32) -> BoardState {
    let from = from_sq(m) as int;
    let to = to_sq(m) as int;
    let placement = placement_after(s, m);
    let side = s.side.spec_opponent();
    let rights = rights_after(s.castle_rights, from, to);
    let ep = if spec_is_pawn_start(m) {
        passed_square(s.side, from) as u8
    } else {
        NO_SQUARE
    };
    BoardState {
        placement,
        side,
        castle_rights: rights,
        en_passant: ep,
        halfmove_clock: if s.placement[from].spec_is_pawn() || captured(m) != 0
            || spec_is_en_passant(m) {
            0
        } else {
            (s.halfmove_clock + 1) as u32
        },
        fullmove: if s.side == Colours::Black {
            (s.fullmove + 1) as u32
        } else {
            s.fullmove
        },
        key: t.position_hash(placement, side, rights, ep),
        history: s.history.push(undo_of(s, m)),
    }
}

/// The placement after the latest move is taken back: the piece stands on its origin again,
/// as a pawn if it was promoted; the captured piece stands on the destination; an
/// en-passant capture gets its pawn back; a castled rook stands in its corner.
pub open spec fn placement_before(s: BoardState, m: u32) -> Seq<PieceType> {
    let from = from_sq(m) as int;
    let to = to_sq(m) as int;
    let mover = s.side.spec_opponent();
    let piece = if promoted(m) != 0 {
        spec_pawn_of(mover)
    } else {
        s.placement[to]
    };
    let stepped = s.placement.update(to, PieceType::spec_from_code(captured(m))).update(from, piece);
    let refilled = if spec_is_en_passant(m) {
        stepped.update(ep_victim(mover, to), spec_pawn_of(s.side))
    } else {
        stepped
    };
    if spec_is_castle(m) {
        refilled.update(castle_rook_to(to), PieceType::Empty).update(
            castle_rook_from(to),
            spec_rook_of(mover),
        )
    } else {
        refilled
    }
}

/// The board after its latest move is taken back: the pieces stand as before, and the
/// record gives back rights, en-passant target, halfmove clock and key.
pub open spec fn revert_move(s: BoardState) -> BoardState {
    let u = s.history.last();
    let mover = s.side.spec_opponent();
    BoardState {
        placement: placement_before(s, u.move_),
        side: mover,
        castle_rights: u.castle_permissions,
        en_passant: u.en_passant_square,
        halfmove_clock: u.fifty_move,
        fullmove: if mover == Colours::Black {
            (s.fullmove - 1) as u32
        } else {
            s.fullmove
        },
        key: u.pos_key,
        history: s.history.drop_last(),
    }
}

/// A move is accepted if it is legal and the history has room for it: it is pseudo-legal,
/// and it leaves no king of the mover attacked.
pub open spec fn move_accepted(t: KeyTable, s: BoardState, m: u32) -> bool {
    move_fits(s, m) && !in_check(placement_after(s, m), s.side)
}

/// A board is well formed if its position is, and if every move in its history can be
/// taken back to a well-formed board on which that move fits and gives this board.
pub open spec fn state_wf(t: KeyTable, s: BoardState) -> bool
    decreases s.history.len(),
{
    &&& position_wf(t, s)
    &&& s.history.len() > 0 ==> {
        let p = revert_move(s);
        &&& state_wf(t, p)
        &&& move_fits(p, s.history.last().move_)
        &&& apply_move(t, p, s.history.last().move_) == s
    }
}

/// Taking back a legal move right after it was made gives the board as it was, and its key.
pub proof fn lemma_legal_move_round_trip(t: KeyTable, s: BoardState, m: u32)
    requires
        position_wf(t, s),
        move_accepted(t, s, m),
    ensures
        revert_move(apply_move(t, s, m)) == s,
        revert_move(apply_move(t, s, m)).key == s.key,
{
    lemma_pseudo_legal_moves_sound(t, s, m);
    lemma_make_unmake(t, s, m);
}

/// The position of a well-formed board is well formed.
pub proof fn lemma_state_wf_position(t: KeyTable, s: BoardState)
    requires
        state_wf(t, s),
    ensures
        position_wf(t, s),
{
}

/// Taking back a move that suits the position, right after it was made, gives the board
/// as it was, in every field: placement, side, rights, en-passant target, counters, key and
/// history.
pub proof fn lemma_make_unmake(t: KeyTable, s: BoardState, m: u32)
    requires
        position_wf(t, s),
        move_suits(s, m),
    ensures
        revert_move(apply_move(t, s, m)) == s,
{
    let a = apply_move(t, s, m);
    let r = revert_move(a);
    let from = from_sq(m) as int;
    let to = to_sq(m) as int;
    assert(a.history.last() == undo_of(s, m));
    assert(a.history.drop_last() =~= s.history);
    assert(PieceType::spec_from_code(captured(m)) == s.placement[to]);
    assert(a.placement[to] == (if promoted(m) != 0 {
        PieceType::spec_from_code(promoted(m))
    } else {
        s.placement[from]
    }));
    assert(r.placement =~= s.placement);
}

/// An en-passant capture removes the pawn behind its destination, and taking the capture
/// back puts that pawn where it stood.
pub proof fn lemma_en_passant_capture(t: KeyTable, s: BoardState, m: u32)
    requires
        position_wf(t, s),
        move_suits(s, m),
        spec_is_en_passant(m),
    ensures
        ({
            let behind = ep_victim(s.side, to_sq(m) as int);
            let pawn = spec_pawn_of(s.side.spec_opponent());
            let after = apply_move(t, s, m);
            &&& on_board(behind)
            &&& s.placement[behind] == pawn
            &&& after.placement[behind] == PieceType::Empty
            &&& after.placement[to_sq(m) as int] == spec_pawn_of(s.side)
            &&& revert_move(after).placement[behind] == pawn
        }),
{
    lemma_make_unmake(t, s, m);
}

/// The position after a move that fits a well-formed position is well formed.
pub proof fn lemma_apply_position_wf(t: KeyTable, s: BoardState, m: u32)
    requires
        position_wf(t, s),
        move_suits(s, m),
        s.history.len() < MAX_GAME_MOVES,
    ensures
        position_wf(t, apply_move(t, s, m)),
        board_shape(placement_after(s, m)),
{
    let a = apply_move(t, s, m);
    let from = from_sq(m) as int;
    let to = to_sq(m) as int;
    lemma_rights_never_return(s.castle_rights, from, to);
    assert(board_shape(a.placement));
}

/// A well-formed board stays well formed when a move that fits it is made.
pub proof fn lemma_apply_state_wf(t: KeyTable, s: BoardState, m: u32)
    requires
        state_wf(t, s),
        move_fits(s, m),
    ensures
        state_wf(t, apply_move(t, s, m)),
{
    lemma_pseudo_legal_moves_sound(t, s, m);
    lemma_apply_position_wf(t, s, m);
    lemma_make_unmake(t, s, m);
    let a = apply_move(t, s, m);
    assert(a.history.last().move_ == m);
}

impl Board {
    /// The board is well formed: its position is, and so is its history.
    pub open spec fn wf(&self) -> bool {
        state_wf(self.key_table(), self@)
    }

    /// Puts a piece, or nothing, on a playable square and keeps the key in step.
    pub(crate) fn put_piece(&mut self, sq: u8, p: PieceType)
        requires
            old(self).inv(),
            on_board(sq as int),
            p != PieceType::OffBoard,
        ensures
            final(self).inv(),
            final(self).key_table() == old(self).key_table(),
            final(self)@ == (BoardState {
                placement: old(self)@.placement.update(sq as int, p),
                key: final(self)@.key,
                ..old(self)@
            }),
    {
        let gone = self.pieces[sq as usize];
        let out = self.keys.piece_key(gone, sq);
        let come = self.keys.piece_key(p, sq);
        proof {
            let t = self.keys@;
            let ph = t.placement_hash(self.pieces@, 120);
            let sk = t.side_key(self.side);
            let ck = t.castle[self.castle_rights as int];
            let ek = t.en_passant_key(self.en_passant);
            lemma_placement_hash_update(t, self.pieces@, sq as int, p, 120);
            assert((((((ph ^ sk) ^ ck) ^ ek) ^ out) ^ come) == ((((ph ^ out) ^ come) ^ sk) ^ ck)
                ^ ek) by (bit_vector);
        }
        self.pieces.set(sq as usize, p);
        self.key = (self.key ^ out) ^ come;
    }

    /// Sets the castling rights and keeps the key in step.
    pub(crate) fn set_castle_rights(&mut self, rights: u8)
        requires
            old(self).inv(),
            rights < 16,
        ensures
            final(self).inv(),
            final(self).key_table() == old(self).key_table(),
            final(self)@ == (BoardState {
                castle_rights: rights,
                key: final(self)@.key,
                ..old(self)@
            }),
    {
        let out = self.keys.castle_key(self.castle_rights);
        let come = self.keys.castle_key(rights);
        proof {
            let t = self.keys@;
            let ph = t.placement_hash(self.pieces@, 120);
            let sk = t.side_key(self.side);
            let ek = t.en_passant_key(self.en_passant);
            assert((((((ph ^ sk) ^ out) ^ ek) ^ out) ^ come) == ((ph ^ sk) ^ come) ^ ek)
                by (bit_vector);
        }
        self.castle_rights = rights;
        self.key = (self.key ^ out) ^ come;
    }

    /// Sets the en-passant target and keeps the key in step.
    pub(crate) fn set_en_passant(&mut self, ep: u8)
        requires
            old(self).inv(),
            ep == NO_SQUARE || on_board(ep as int),
        ensures
            final(self).inv(),
            final(self).key_table() == old(self).key_table(),
            final(self)@ == (BoardState { en_passant: ep, key: final(self)@.key, ..old(self)@ }),
    {
        let out = self.keys.en_passant_key(self.en_passant);
        let come = self.keys.en_passant_key(ep);
        proof {
            let t = self.keys@;
            let ph = t.placement_hash(self.pieces@, 120);
            let sk = t.side_key(self.side);
            let ck = t.castle[self.castle_rights as int];
            assert((((((ph ^ sk) ^ ck) ^ out) ^ out) ^ come) == ((ph ^ sk) ^ ck) ^ come)
                by (bit_vector);
        }
        self.en_passant = ep;
        self.key = (self.key ^ out) ^ come;
    }

    /// Hands the move to the other player and keeps the key in step.
    pub(crate) fn flip_side(&mut self)
        requires
            old(self).inv(),
        ensures
            final(self).inv(),
            final(self).key_table() == old(self).key_table(),
            final(self)@ == (BoardState {
                side: old(self)@.side.spec_opponent(),
                key: final(self)@.key,
                ..old(self)@
            }),
    {
        let out = self.keys.side_key(self.side);
        let come = self.keys.side_key(self.side.opponent());
        proof {
            let t = self.keys@;
            let ph = t.placement_hash(self.pieces@, 120);
            let ck = t.castle[self.castle_rights as int];
            let ek = t.en_passant_key(self.en_passant);
            assert((((((ph ^ out) ^ ck) ^ ek) ^ out) ^ come) == ((ph ^ come) ^ ck) ^ ek)
                by (bit_vector);
        }
        self.side = self.side.opponent();
        self.key = (self.key ^ out) ^ come;
    }

    /// Whether a move can be made on the board: whether it is pseudo-legal and the history
    /// has room for it.
    pub fn fits(&self, m: u32) -> (b: bool)
        requires
            self.inv(),
        ensures
            b == move_fits(self@, m),
    {
        self.history.len() < MAX_GAME_MOVES && self.is_pseudo_legal(m)
    }

    /// Takes back the latest move.
    pub fn unmake_move(&mut self)
        requires
            old(self).wf(),
            old(self)@.history.len() > 0,
        ensures
            final(self)@ == revert_move(old(self)@),
            final(self).key_table() == old(self).key_table(),
            final(self).wf(),
    {
        let ghost before = self@;
        proof {
            let p = revert_move(before);
            let a = apply_move(self.keys@, p, before.history.last().move_);
            lemma_state_wf_position(self.keys@, p);
            lemma_pseudo_legal_moves_sound(self.keys@, p, before.history.last().move_);
            assert(a == before);
            if p.side == Colours::Black {
                assert(a.fullmove == (p.fullmove + 1) as u32);
                assert(before.fullmove >= 1);
            }
        }
        let u = self.history.pop().unwrap();
        let m: u32 = u.move_;
        let from: u8 = FromSq(m) as u8;
        let to: u8 = ToSq(m) as u8;
        let mover = self.side.opponent();
        let piece = if Promoted(m) != 0 {
            pawn_of(mover)
        } else {
            self.pieces[to as usize]
        };
        self.pieces.set(to as usize, PieceType::from_code(Captured(m)));
        self.pieces.set(from as usize, piece);
        if is_en_passant(m) {
            let victim: u8 = if mover == Colours::White {
                to - 10
            } else {
                to + 10
            };
            self.pieces.set(victim as usize, pawn_of(self.side));
        }
        if is_castle(m) {
            self.pieces.set(castle_rook_to_sq(to) as usize, PieceType::Empty);
            self.pieces.set(castle_rook_from_sq(to) as usize, rook_of(mover));
        }
        if mover == Colours::Black {
            self.fullmove = self.fullmove - 1;
        }
        self.side = mover;
        self.castle_rights = u.castle_permissions;
        self.en_passant = u.en_passant_square;
        self.halfmove_clock = u.fifty_move;
        self.key = u.pos_key;
        proof {
            assert(self@.placement =~= revert_move(before).placement);
            assert(self@.history =~= revert_move(before).history);
        }
    }

    /// Makes a move if it fits the board and leaves no king of the mover attacked, and says
    /// whether it did; a move that is not made leaves the board as it was.
    pub fn make_move(&mut self, m: u32) -> (made: bool)
        requires
            old(self).wf(),
        ensures
            made == move_accepted(old(self).key_table(), old(self)@, m),
            made ==> final(self)@ == apply_move(old(self).key_table(), old(self)@, m),
            !made ==> final(self)@ == old(self)@,
            final(self).key_table() == old(self).key_table(),
            final(self).wf(),
    {
        if !self.fits(m) {
            return false;
        }
        let ghost before = self@;
        let ghost t = self.keys@;
        proof {
            lemma_pseudo_legal_moves_sound(t, before, m);
        }
        let from: u8 = FromSq(m) as u8;
        let to: u8 = ToSq(m) as u8;
        let mover = self.side;
        let piece = self.pieces[from as usize];
        let moved = if Promoted(m) != 0 {
            PieceType::from_code(Promoted(m))
        } else {
            piece
        };
        proof {
            lemma_apply_position_wf(t, before, m);
            lemma_rights_never_return(before.castle_rights, from as int, to as int);
        }
        self.history.push(
            Undo {
                move_: m,
                castle_permissions: self.castle_rights,
                en_passant_square: self.en_passant,
                fifty_move: self.halfmove_clock,
                pos_key: self.key,
            },
        );
        self.put_piece(from, PieceType::Empty);
        self.put_piece(to, moved);
        if is_en_passant(m) {
            let victim: u8 = if mover == Colours::White {
                to - 10
            } else {
                to + 10
            };
            self.put_piece(victim, PieceType::Empty);
        }
        if is_castle(m) {
            self.put_piece(castle_rook_from_sq(to), PieceType::Empty);
            self.put_piece(castle_rook_to_sq(to), rook_of(mover));
        }
        self.set_castle_rights(self.castle_rights & rights_mask(from) & rights_mask(to));
        if is_pawn_start(m) {
            let passed: u8 = if mover == Colours::White {
                from + 10
            } else {
                from - 10
            };
            self.set_en_passant(passed);
        } else {
            self.set_en_passant(NO_SQUARE);
        }
        if piece.is_pawn() || Captured(m) != 0 || is_en_passant(m) {
            self.halfmove_clock = 0;
        } else {
            self.halfmove_clock = self.halfmove_clock + 1;
        }
        if mover == Colours::Black {
            self.fullmove = self.fullmove + 1;
        }
        self.flip_side();
        proof {
            let after = apply_move(t, before, m);
            assert(self@.placement =~= after.placement);
            assert(self@.history =~= after.history);
            assert(self@ == after);
            lemma_apply_state_wf(t, before, m);
            lemma_make_unmake(t, before, m);
        }
        if side_in_check(&self.pieces, mover) {
            self.unmake_move();
            return false;
        }
        true
    }
}

/// The corner the rook leaves when the king castles to `to`.
pub(crate) fn castle_rook_from_sq(to: u8) -> (sq: u8)
    ensures
        sq == castle_rook_from(to as int),
        on_board(sq as int),
{
    if to == 27 {
        28
    } else if to == 23 {
        21
    } else if to == 97 {
        98
    } else {
        91
    }
}

/// The square the rook lands on when the king castles to `to`.
pub(crate) fn castle_rook_to_sq(to: u8) -> (sq: u8)
    ensures
        sq == castle_rook_to(to as int),
        on_board(sq as int),
{
    if to == 27 {
        26
    } else if to == 23 {
        24
    } else if to == 97 {
        96
    } else {
        94
    }
}

} // verus!
