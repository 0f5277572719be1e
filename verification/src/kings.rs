use vstd::prelude::*;
use crate::attack::{attacked, in_check, side_in_check};
use crate::board::{position_wf, Board, BoardState};
use crate::defines::{
    from_sq, king_of, on_board, promoted, spec_is_castle, spec_is_en_passant, spec_king_of,
    spec_rook_of, to_sq, Colours, PieceType,
};
use crate::generated::{lemma_capture_is_attack, lemma_pseudo_legal_moves_sound};
use crate::history::{
    apply_move, castle_rook_from, castle_rook_to, ep_victim, move_accepted, placement_after,
};
use crate::zobrist::KeyTable;

verus! {

/// The number of kings of a side on the first `n` squares of a placement.
pub open spec fn king_count(placement: Seq<PieceType>, side: Colours, n: int) -> int
    decreases n,
{
    if n <= 0 {
        0
    } else {
        king_count(placement, side, n - 1) + (if placement[n - 1] == spec_king_of(side) {
            1int
        } else {
            0int
        })
    }
}

/// Each player has exactly one king on the board.
pub open spec fn one_king_each(placement: Seq<PieceType>) -> bool {
    king_count(placement, Colours::White, 120) == 1 && king_count(placement, Colours::Black, 120)
        == 1
}

/// The game is active: each player has exactly one king, and the player who has just moved
/// did not leave that king attacked.
pub open spec fn game_active(s: BoardState) -> bool {
    one_king_each(s.placement) && !in_check(s.placement, s.side.spec_opponent())
}

/// Replacing what stands on one square changes the number of kings by the king that came
/// and the king that left.
pub proof fn lemma_king_count_update(
    placement: Seq<PieceType>,
    side: Colours,
    sq: int,
    p: PieceType,
    n: int,
)
    requires
        0 <= sq < placement.len(),
        0 <= n <= placement.len(),
    ensures
        sq < n ==> king_count(placement.update(sq, p), side, n) == king_count(placement, side, n)
            + (if p == spec_king_of(side) {
            1int
        } else {
            0int
        }) - (if placement[sq] == spec_king_of(side) {
            1int
        } else {
            0int
        }),
        sq >= n ==> king_count(placement.update(sq, p), side, n) == king_count(placement, side, n),
    decreases n,
{
    if n > 0 {
        lemma_king_count_update(placement, side, sq, p, n - 1);
    }
}

/// A legal move keeps the number of kings of a player, unless it captures that player's
/// king.
proof fn lemma_move_keeps_kings(t: KeyTable, s: BoardState, m: u32, side: Colours)
    requires
        position_wf(t, s),
        move_accepted(t, s, m),
        side.spec_is_player(),
        s.placement[to_sq(m) as int] != spec_king_of(side),
    ensures
        king_count(placement_after(s, m), side, 120) == king_count(s.placement, side, 120),
{
    lemma_pseudo_legal_moves_sound(t, s, m);
    let from = from_sq(m) as int;
    let to = to_sq(m) as int;
    let piece = s.placement[from];
    let moved = if promoted(m) != 0 {
        PieceType::spec_from_code(promoted(m))
    } else {
        piece
    };
    let left = s.placement.update(from, PieceType::Empty);
    let stepped = left.update(to, moved);
    lemma_king_count_update(s.placement, side, from, PieceType::Empty, 120);
    lemma_king_count_update(left, side, to, moved, 120);
    assert(king_count(stepped, side, 120) == king_count(s.placement, side, 120));
    if spec_is_en_passant(m) {
        lemma_king_count_update(stepped, side, ep_victim(s.side, to), PieceType::Empty, 120);
    }
    if spec_is_castle(m) {
        let lifted = stepped.update(castle_rook_from(to), PieceType::Empty);
        lemma_king_count_update(stepped, side, castle_rook_from(to), PieceType::Empty, 120);
        lemma_king_count_update(lifted, side, castle_rook_to(to), spec_rook_of(s.side), 120);
    }
}

/// An active game stays active under every legal move: each player keeps exactly one king,
/// and no king is ever captured.
pub proof fn lemma_game_stays_active(t: KeyTable, s: BoardState, m: u32)
    requires
        position_wf(t, s),
        game_active(s),
        move_accepted(t, s, m),
    ensures
        game_active(apply_move(t, s, m)),
        !s.placement[to_sq(m) as int].spec_is_king(),
{
    lemma_pseudo_legal_moves_sound(t, s, m);
    let to = to_sq(m) as int;
    let target = s.placement[to];
    if target.spec_is_king() {
        lemma_capture_is_attack(t, s, m);
        assert(target == spec_king_of(s.side.spec_opponent()));
        assert(on_board(to) && s.placement[to] == spec_king_of(s.side.spec_opponent())
            && attacked(s.placement, to, s.side.spec_opponent().spec_opponent()));
        assert(in_check(s.placement, s.side.spec_opponent()));
    }
    lemma_move_keeps_kings(t, s, m, Colours::White);
    lemma_move_keeps_kings(t, s, m, Colours::Black);
}

/// Counts the kings of a side.
fn count_kings(pieces: &Vec<PieceType>, side: Colours) -> (n: u8)
    requires
        pieces@.len() == 120,
    ensures
        n == king_count(pieces@, side, 120),
{
    let king = king_of(side);
    let mut n: u8 = 0;
    let mut sq: u8 = 0;
    while sq < 120
        invariant
            sq <= 120,
            pieces@.len() == 120,
            king == spec_king_of(side),
            n == king_count(pieces@, side, sq as int),
            n <= sq,
        decreases 120 - sq,
    {
        if pieces[sq as usize] == king {
            n += 1;
        }
        sq += 1;
    }
    n
}

impl Board {
    /// Whether the game is active: whether each player has exactly one king, and the player
    /// who is not to move has no king attacked.
    pub fn is_active(&self) -> (b: bool)
        requires
            self.inv(),
        ensures
            b == game_active(self@),
    {
        count_kings(&self.pieces, Colours::White) == 1 && count_kings(
            &self.pieces,
            Colours::Black,
        ) == 1 && !side_in_check(&self.pieces, self.side.opponent())
    }
}

} // verus!
