use vstd::prelude::*;
use crate::attack::{
    attacked, number_of_dirs, piece_dir, spec_number_of_dirs, spec_piece_dir, square_attacked,
    step_from,
};
use crate::board::{Board, BoardState};
use crate::defines::{
    from_sq, king_of, move_of, on_board, pack_move, pawn_of, rook_of, spec_king_of, spec_pawn_of,
    spec_rook_of, Colours, FromSq, MoveList, PieceType, BOARD_SQUARE_NUM, MAX_POSITION_MOVES,
};
use crate::generated::lemma_pseudo_legal_by_origin;
use crate::history::{
    castle_rook_from, castle_rook_from_sq, castle_rook_to, castle_rook_to_sq, castle_shape,
    ep_victim, passed_square,
};

verus! {

/// What is wrong when the library cannot go on: a defect of the caller, not of the input.
#[derive(Clone, Copy, Debug, PartialEq, Eq, Structural)]
pub enum InvariantViolation {
    /// A position has more pseudo-legal moves than a move list holds.
    MoveListOverflow,
}

/// A move between two squares of the padded board.
pub open spec fn mv(
    from: int,
    to: int,
    cap: PieceType,
    prom: PieceType,
    ep: bool,
    start: bool,
    castle: bool,
) -> u32 {
    move_of(from as u8, to as u8, cap, prom, ep, start, castle)
}

/// A move that neither promotes nor carries a mark.
pub open spec fn plain_move(from: int, to: int, cap: PieceType) -> u32 {
    mv(from, to, cap, PieceType::Empty, false, false, false)
}

/// The move of a piece one step in a direction: onto an empty square, or onto a piece of
/// the other side, which it captures.
pub open spec fn step_moves(s: BoardState, from: int, dir: int) -> Seq<u32> {
    let to = from + dir;
    let target = s.placement[to];
    if target == PieceType::Empty {
        seq![plain_move(from, to, PieceType::Empty)]
    } else if target.spec_colour() == s.side.spec_opponent() {
        seq![plain_move(from, to, target)]
    } else {
        Seq::empty()
    }
}

/// The moves of a piece along a ray, beyond the square `cur`: onto each empty square in
/// turn, up to the first square that is not empty; onto that one too if a piece of the other
/// side stands there.
pub open spec fn ray_moves(s: BoardState, from: int, cur: int, dir: int) -> Seq<u32>
    decreases
            (if dir > 0 {
                120 - cur
            } else {
                cur
            }),
{
    let next = cur + dir;
    if dir == 0 || next < 0 || next >= 120 {
        Seq::empty()
    } else {
        let target = s.placement[next];
        if target == PieceType::Empty {
            seq![plain_move(from, next, PieceType::Empty)] + ray_moves(s, from, next, dir)
        } else if target.spec_colour() == s.side.spec_opponent() {
            seq![plain_move(from, next, target)]
        } else {
            Seq::empty()
        }
    }
}

/// The moves of a piece in its `i`-th direction.
pub open spec fn dir_moves(s: BoardState, from: int, piece: PieceType, i: int) -> Seq<u32> {
    if piece.spec_is_slider() {
        ray_moves(s, from, from, spec_piece_dir(piece, i))
    } else {
        step_moves(s, from, spec_piece_dir(piece, i))
    }
}

/// The moves of a piece in its first `n` directions, in the order of its table.
pub open spec fn dirs_moves(s: BoardState, from: int, piece: PieceType, n: int) -> Seq<u32>
    decreases n,
{
    if n <= 0 {
        Seq::empty()
    } else {
        dirs_moves(s, from, piece, n - 1) + dir_moves(s, from, piece, n - 1)
    }
}

/// The rank a pawn of a side promotes on.
pub open spec fn last_rank(side: Colours, sq: int) -> bool {
    if side == Colours::White {
        sq / 10 == 9
    } else {
        sq / 10 == 2
    }
}

/// The rank the pawns of a side start on.
pub open spec fn home_rank(side: Colours, sq: int) -> bool {
    if side == Colours::White {
        sq / 10 == 3
    } else {
        sq / 10 == 8
    }
}

/// The queen, rook, bishop and knight of a side, in the order in which promotions are
/// listed.
pub open spec fn promotion_piece(side: Colours, k: int) -> PieceType {
    if side == Colours::White {
        if k == 0 {
            PieceType::WhiteQueen
        } else if k == 1 {
            PieceType::WhiteRook
        } else if k == 2 {
            PieceType::WhiteBishop
        } else {
            PieceType::WhiteKnight
        }
    } else {
        if k == 0 {
            PieceType::BlackQueen
        } else if k == 1 {
            PieceType::BlackRook
        } else if k == 2 {
            PieceType::BlackBishop
        } else {
            PieceType::BlackKnight
        }
    }
}

/// A pawn's move to a square: one move, or its four promotions where the square lies on
/// the last rank.
pub open spec fn pawn_move(side: Colours, from: int, to: int, cap: PieceType) -> Seq<u32> {
    if last_rank(side, to) {
        seq![
            mv(from, to, cap, promotion_piece(side, 0), false, false, false),
            mv(from, to, cap, promotion_piece(side, 1), false, false, false),
            mv(from, to, cap, promotion_piece(side, 2), false, false, false),
            mv(from, to, cap, promotion_piece(side, 3), false, false, false),
        ]
    } else {
        seq![plain_move(from, to, cap)]
    }
}

/// A pawn's moves straight ahead: one step onto an empty square, and from the home rank
/// two steps if the second square is empty as well.
pub open spec fn pawn_pushes(s: BoardState, from: int) -> Seq<u32> {
    let one = passed_square(s.side, from);
    let two = passed_square(s.side, one);
    if s.placement[one] != PieceType::Empty {
        Seq::empty()
    } else if home_rank(s.side, from) && s.placement[two] == PieceType::Empty {
        pawn_move(s.side, from, one, PieceType::Empty) + seq![
            mv(from, two, PieceType::Empty, PieceType::Empty, false, true, false),
        ]
    } else {
        pawn_move(s.side, from, one, PieceType::Empty)
    }
}

/// A pawn's capture on a square diagonally ahead: of the piece of the other side that
/// stands there, or en passant where the square is the empty en-passant target and a pawn of
/// the other side stands behind it.
pub open spec fn pawn_capture(s: BoardState, from: int, to: int) -> Seq<u32> {
    let target = s.placement[to];
    if target.spec_colour() == s.side.spec_opponent() {
        pawn_move(s.side, from, to, target)
    } else if target == PieceType::Empty && to == s.en_passant && s.placement[ep_victim(
        s.side,
        to,
    )] == spec_pawn_of(s.side.spec_opponent()) {
        seq![mv(from, to, PieceType::Empty, PieceType::Empty, true, false, false)]
    } else {
        Seq::empty()
    }
}

/// A pawn's moves: straight ahead first, then the capture towards the a-file for White and
/// towards the h-file for Black, then the other capture.
pub open spec fn pawn_moves(s: BoardState, from: int) -> Seq<u32> {
    let one = passed_square(s.side, from);
    pawn_pushes(s, from) + pawn_capture(s, from, one - 1) + pawn_capture(s, from, one + 1)
}

/// The bit of the castling rights that castling to a square needs.
pub open spec fn castle_bit(to: int) -> u8 {
    if to == 27 {
        1
    } else if to == 23 {
        2
    } else if to == 97 {
        4
    } else {
        8
    }
}

/// Every square between the king and the rook is empty.
pub open spec fn castle_path_clear(placement: Seq<PieceType>, from: int, to: int) -> bool {
    if to > from {
        placement[from + 1] == PieceType::Empty && placement[from + 2] == PieceType::Empty
    } else {
        placement[from - 1] == PieceType::Empty && placement[from - 2] == PieceType::Empty
            && placement[from - 3] == PieceType::Empty
    }
}

/// The side to move may castle from `from` to `to`: the step is a castling step, the right
/// is there, king and rook stand on their squares, the squares between them are empty, and
/// the other side attacks none of the three squares the king starts on, passes and lands on.
pub open spec fn castle_ready(s: BoardState, from: int, to: int) -> bool {
    let other = s.side.spec_opponent();
    &&& castle_shape(s.side, from, to)
    &&& s.castle_rights & castle_bit(to) != 0
    &&& s.placement[from] == spec_king_of(s.side)
    &&& s.placement[castle_rook_from(to)] == spec_rook_of(s.side)
    &&& castle_path_clear(s.placement, from, to)
    &&& !attacked(s.placement, from, other)
    &&& !attacked(s.placement, castle_rook_to(to), other)
    &&& !attacked(s.placement, to, other)
}

/// The castling move from `from` to `to`, if the side to move may castle so.
pub open spec fn castle_move(s: BoardState, from: int, to: int) -> Seq<u32> {
    if castle_ready(s, from, to) {
        seq![mv(from, to, PieceType::Empty, PieceType::Empty, false, false, true)]
    } else {
        Seq::empty()
    }
}

/// The pseudo-legal moves of the piece on a square: none unless the piece belongs to the
/// side to move; a pawn's moves; a king's steps, then castling to the king's side, then to
/// the queen's side; any other piece's moves direction by direction.
pub open spec fn moves_from(s: BoardState, sq: int) -> Seq<u32> {
    let piece = s.placement[sq];
    if !s.side.spec_is_player() || piece.spec_colour() != s.side {
        Seq::empty()
    } else if piece.spec_is_pawn() {
        pawn_moves(s, sq)
    } else if piece.spec_is_king() {
        dirs_moves(s, sq, piece, 8) + castle_move(s, sq, sq + 2) + castle_move(s, sq, sq - 2)
    } else {
        dirs_moves(s, sq, piece, spec_number_of_dirs(piece))
    }
}

/// The pseudo-legal moves of the pieces on the first `n` squares, square by square.
pub open spec fn moves_upto(s: BoardState, n: int) -> Seq<u32>
    decreases n,
{
    if n <= 0 {
        Seq::empty()
    } else {
        moves_upto(s, n - 1) + moves_from(s, n - 1)
    }
}

/// The pseudo-legal moves of a position, in the order in which they are generated: by the
/// square of the moving piece, from a1 along the ranks to h8, and for each piece in the order
/// of its directions.
pub open spec fn pseudo_legal_moves(s: BoardState) -> Seq<u32> {
    moves_upto(s, BOARD_SQUARE_NUM as int)
}

/// The moves of more squares are no fewer.
pub proof fn lemma_moves_upto_grow(s: BoardState, n: int, m: int)
    requires
        n <= m,
    ensures
        moves_upto(s, n).len() <= moves_upto(s, m).len(),
    decreases m - n,
{
    if n < m {
        lemma_moves_upto_grow(s, n, m - 1);
    }
}

fn promotion_piece_of(side: Colours, k: u8) -> (p: PieceType)
    ensures
        p == promotion_piece(side, k as int),
{
    if side == Colours::White {
        if k == 0 {
            PieceType::WhiteQueen
        } else if k == 1 {
            PieceType::WhiteRook
        } else if k == 2 {
            PieceType::WhiteBishop
        } else {
            PieceType::WhiteKnight
        }
    } else {
        if k == 0 {
            PieceType::BlackQueen
        } else if k == 1 {
            PieceType::BlackRook
        } else if k == 2 {
            PieceType::BlackBishop
        } else {
            PieceType::BlackKnight
        }
    }
}

fn push_plain(list: &mut Vec<u32>, from: u8, to: u8, cap: PieceType)
    ensures
        final(list)@ == old(list)@ + seq![plain_move(from as int, to as int, cap)],
{
    list.push(pack_move(from, to, cap, PieceType::Empty, false, false, false));
    assert(list@ =~= old(list)@ + seq![plain_move(from as int, to as int, cap)]);
}

fn push_pawn_move(list: &mut Vec<u32>, side: Colours, from: u8, to: u8, cap: PieceType)
    ensures
        final(list)@ == old(list)@ + pawn_move(side, from as int, to as int, cap),
{
    let last: bool = if side == Colours::White {
        to / 10 == 9
    } else {
        to / 10 == 2
    };
    if last {
        list.push(pack_move(from, to, cap, promotion_piece_of(side, 0), false, false, false));
        list.push(pack_move(from, to, cap, promotion_piece_of(side, 1), false, false, false));
        list.push(pack_move(from, to, cap, promotion_piece_of(side, 2), false, false, false));
        list.push(pack_move(from, to, cap, promotion_piece_of(side, 3), false, false, false));
        assert(list@ =~= old(list)@ + pawn_move(side, from as int, to as int, cap));
    } else {
        push_plain(list, from, to, cap);
    }
}

impl Board {
    fn gen_step(&self, from: u8, dir: i8, list: &mut Vec<u32>)
        requires
            self.inv(),
            on_board(from as int),
            -21 <= dir <= 21,
        ensures
            final(list)@ == old(list)@ + step_moves(self@, from as int, dir as int),
    {
        let to: u8 = step_from(from, dir);
        let target = self.pieces[to as usize];
        if target == PieceType::Empty {
            push_plain(list, from, to, PieceType::Empty);
        } else if target.colour() == self.side.opponent() {
            push_plain(list, from, to, target);
        } else {
            assert(list@ =~= old(list)@ + Seq::<u32>::empty());
        }
    }

    fn gen_ray(&self, from: u8, dir: i8, list: &mut Vec<u32>)
        requires
            self.inv(),
            on_board(from as int),
            -21 <= dir <= 21,
            dir != 0,
        ensures
            final(list)@ == old(list)@ + ray_moves(self@, from as int, from as int, dir as int),
    {
        let ghost start = list@;
        let mut cur: u8 = from;
        assert(list@ + ray_moves(self@, from as int, cur as int, dir as int) =~= start
            + ray_moves(self@, from as int, from as int, dir as int));
        loop
            invariant
                self.inv(),
                on_board(from as int),
                on_board(cur as int),
                -21 <= dir <= 21,
                dir != 0,
                start == old(list)@,
                list@ + ray_moves(self@, from as int, cur as int, dir as int) == start
                    + ray_moves(self@, from as int, from as int, dir as int),
            decreases
                    (if dir > 0 {
                        120 - cur
                    } else {
                        cur as int
                    }),
        {
            let ghost before = list@;
            let next: u8 = step_from(cur, dir);
            let target = self.pieces[next as usize];
            if target == PieceType::Empty {
                push_plain(list, from, next, PieceType::Empty);
                assert(list@ + ray_moves(self@, from as int, next as int, dir as int) =~= before
                    + ray_moves(self@, from as int, cur as int, dir as int));
                cur = next;
            } else {
                if target.colour() == self.side.opponent() {
                    push_plain(list, from, next, target);
                } else {
                    assert(list@ =~= before + Seq::<u32>::empty());
                }
                return;
            }
        }
    }

    fn gen_dirs(&self, from: u8, piece: PieceType, list: &mut Vec<u32>)
        requires
            self.inv(),
            on_board(from as int),
        ensures
            final(list)@ == old(list)@ + dirs_moves(
                self@,
                from as int,
                piece,
                spec_number_of_dirs(piece),
            ),
    {
        let ghost start = list@;
        let n: usize = number_of_dirs(piece);
        let slider: bool = piece.is_slider();
        let mut i: usize = 0;
        assert(list@ =~= start + dirs_moves(self@, from as int, piece, 0));
        while i < n
            invariant
                self.inv(),
                on_board(from as int),
                i <= n,
                n == spec_number_of_dirs(piece),
                slider == piece.spec_is_slider(),
                start == old(list)@,
                list@ == start + dirs_moves(self@, from as int, piece, i as int),
            decreases n - i,
        {
            let dir: i8 = piece_dir(piece, i);
            if slider {
                self.gen_ray(from, dir, list);
            } else {
                self.gen_step(from, dir, list);
            }
            assert(list@ =~= start + dirs_moves(self@, from as int, piece, i + 1));
            i += 1;
        }
    }

    fn gen_pawn_capture(&self, from: u8, to: u8, list: &mut Vec<u32>)
        requires
            self.inv(),
            on_board(from as int),
            to < 120,
        ensures
            final(list)@ == old(list)@ + pawn_capture(self@, from as int, to as int),
    {
        let side = self.side;
        let target = self.pieces[to as usize];
        if target.colour() == side.opponent() {
            push_pawn_move(list, side, from, to, target);
        } else if target == PieceType::Empty && to == self.en_passant {
            let victim: u8 = if side == Colours::White {
                to - 10
            } else {
                to + 10
            };
            if self.pieces[victim as usize] == pawn_of(side.opponent()) {
                list.push(
                    pack_move(from, to, PieceType::Empty, PieceType::Empty, true, false, false),
                );
                assert(list@ =~= old(list)@ + pawn_capture(self@, from as int, to as int));
            } else {
                assert(list@ =~= old(list)@ + Seq::<u32>::empty());
            }
        } else {
            assert(list@ =~= old(list)@ + Seq::<u32>::empty());
        }
    }

    fn gen_pawn(&self, from: u8, list: &mut Vec<u32>)
        requires
            self.inv(),
            on_board(from as int),
        ensures
            final(list)@ == old(list)@ + pawn_moves(self@, from as int),
    {
        let ghost start = list@;
        let side = self.side;
        let white: bool = side == Colours::White;
        let one: u8 = if white {
            from + 10
        } else {
            from - 10
        };
        if self.pieces[one as usize] == PieceType::Empty {
            push_pawn_move(list, side, from, one, PieceType::Empty);
            let home: bool = if white {
                from / 10 == 3
            } else {
                from / 10 == 8
            };
            if home {
                let two: u8 = if white {
                    one + 10
                } else {
                    one - 10
                };
                if self.pieces[two as usize] == PieceType::Empty {
                    list.push(
                        pack_move(
                            from,
                            two,
                            PieceType::Empty,
                            PieceType::Empty,
                            false,
                            true,
                            false,
                        ),
                    );
                }
            }
        }
        assert(list@ =~= start + pawn_pushes(self@, from as int));
        self.gen_pawn_capture(from, one - 1, list);
        self.gen_pawn_capture(from, one + 1, list);
        assert(list@ =~= start + pawn_moves(self@, from as int));
    }

    fn can_castle(&self, from: u8, to: u8) -> (b: bool)
        requires
            self.inv(),
            on_board(from as int),
            to == from + 2 || to == from - 2,
        ensures
            b == castle_ready(self@, from as int, to as int),
    {
        let side = self.side;
        let shape: bool = if side == Colours::White {
            from == 25 && (to == 27 || to == 23)
        } else {
            from == 95 && (to == 97 || to == 93)
        };
        if !shape {
            return false;
        }
        let bit: u8 = if to == 27 {
            1
        } else if to == 23 {
            2
        } else if to == 97 {
            4
        } else {
            8
        };
        if self.castle_rights & bit == 0 {
            return false;
        }
        if self.pieces[from as usize] != king_of(side) || self.pieces[castle_rook_from_sq(
            to,
        ) as usize] != rook_of(side) {
            return false;
        }
        let clear: bool = if to > from {
            self.pieces[(from + 1) as usize] == PieceType::Empty && self.pieces[(from
                + 2) as usize] == PieceType::Empty
        } else {
            self.pieces[(from - 1) as usize] == PieceType::Empty && self.pieces[(from
                - 2) as usize] == PieceType::Empty && self.pieces[(from - 3) as usize]
                == PieceType::Empty
        };
        if !clear {
            return false;
        }
        let other = side.opponent();
        !square_attacked(&self.pieces, from, other) && !square_attacked(
            &self.pieces,
            castle_rook_to_sq(to),
            other,
        ) && !square_attacked(&self.pieces, to, other)
    }

    fn gen_castle(&self, from: u8, to: u8, list: &mut Vec<u32>)
        requires
            self.inv(),
            on_board(from as int),
            to == from + 2 || to == from - 2,
        ensures
            final(list)@ == old(list)@ + castle_move(self@, from as int, to as int),
    {
        if self.can_castle(from, to) {
            list.push(pack_move(from, to, PieceType::Empty, PieceType::Empty, false, false, true));
            assert(list@ =~= old(list)@ + castle_move(self@, from as int, to as int));
        } else {
            assert(list@ =~= old(list)@ + Seq::<u32>::empty());
        }
    }

    fn gen_square(&self, sq: u8, list: &mut Vec<u32>)
        requires
            self.inv(),
            sq < 120,
        ensures
            final(list)@ == old(list)@ + moves_from(self@, sq as int),
    {
        let ghost start = list@;
        let piece = self.pieces[sq as usize];
        if piece.colour() != self.side {
            assert(list@ =~= start + Seq::<u32>::empty());
        } else if piece.is_pawn() {
            self.gen_pawn(sq, list);
        } else if piece.is_king() {
            self.gen_dirs(sq, piece, list);
            self.gen_castle(sq, sq + 2, list);
            self.gen_castle(sq, sq - 2, list);
            assert(list@ =~= start + moves_from(self@, sq as int));
        } else {
            self.gen_dirs(sq, piece, list);
        }
    }

    /// Whether a move is one of the pseudo-legal moves of the position: whether the piece on
    /// its origin has it among its moves.
    pub fn is_pseudo_legal(&self, m: u32) -> (b: bool)
        requires
            self.inv(),
        ensures
            b == pseudo_legal_moves(self@).contains(m),
    {
        proof {
            lemma_pseudo_legal_by_origin(self.key_table(), self@, m);
        }
        let from: u32 = FromSq(m);
        if from >= 120 {
            return false;
        }
        let mut moves: Vec<u32> = Vec::new();
        self.gen_square(from as u8, &mut moves);
        assert(moves@ =~= moves_from(self@, from as int));
        let mut i: usize = 0;
        while i < moves.len()
            invariant
                i <= moves.len(),
                from == from_sq(m),
                from < 120,
                moves@ == moves_from(self@, from as int),
                pseudo_legal_moves(self@).contains(m) <==> moves_from(
                    self@,
                    from as int,
                ).contains(m),
                forall|j: int| 0 <= j < i ==> moves@[j] != m,
            decreases moves.len() - i,
        {
            if moves[i] == m {
                assert(moves@[i as int] == m);
                return true;
            }
            i += 1;
        }
        false
    }

    /// Generates the pseudo-legal moves of the side to move, in their order. A position
    /// with more of them than a move list holds gives the error and no list; generation
    /// stops at the piece whose moves overflow the list.
    pub fn generate_moves(&self) -> (r: Result<MoveList, InvariantViolation>)
        requires
            self.inv(),
        ensures
            r.is_ok() == (pseudo_legal_moves(self@).len() <= MAX_POSITION_MOVES),
            r.is_ok() ==> r.unwrap()@ == pseudo_legal_moves(self@) && r.unwrap().wf(),
            r.is_err() ==> r == Err::<MoveList, InvariantViolation>(InvariantViolation::MoveListOverflow),
    {
        let mut moves: Vec<u32> = Vec::new();
        let mut sq: u8 = 0;
        assert(moves@ =~= moves_upto(self@, 0));
        while sq < 120
            invariant
                self.inv(),
                sq <= 120,
                moves@ == moves_upto(self@, sq as int),
            decreases 120 - sq,
        {
            self.gen_square(sq, &mut moves);
            sq += 1;
            if moves.len() > MAX_POSITION_MOVES {
                proof {
                    lemma_moves_upto_grow(self@, sq as int, 120);
                }
                return Err(InvariantViolation::MoveListOverflow);
            }
        }
        match MoveList::from_moves(moves) {
            Some(list) => Ok(list),
            None => Err(InvariantViolation::MoveListOverflow),
        }
    }
}

} // verus!
