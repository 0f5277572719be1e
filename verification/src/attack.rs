use vstd::prelude::*;
use crate::board::{board_shape, Board};
use crate::defines::{
    is_on_board, king_of, on_board, spec_king_of, Colours, PieceType, BOARD_SQUARE_NUM,
};

verus! {

/// The number of directions a piece moves in; a pawn's moves are not tabulated.
pub open spec fn spec_number_of_dirs(p: PieceType) -> int {
    if p.spec_is_knight() || p.spec_is_king() {
        8
    } else if p.spec_is_rook_queen() && p.spec_is_bishop_queen() {
        8
    } else if p.spec_is_slider() {
        4
    } else {
        0
    }
}

/// The step of a knight in its `i`-th direction, as a difference of padded indices.
pub open spec fn spec_knight_dir(i: int) -> int {
    if i == 0 {
        -8
    } else if i == 1 {
        -19
    } else if i == 2 {
        -21
    } else if i == 3 {
        -12
    } else if i == 4 {
        8
    } else if i == 5 {
        19
    } else if i == 6 {
        21
    } else if i == 7 {
        12
    } else {
        0
    }
}

/// The step of a queen or king in its `i`-th direction: the four straight ones first, then
/// the four diagonal ones.
pub open spec fn spec_royal_dir(i: int) -> int {
    if i == 0 {
        -1
    } else if i == 1 {
        -10
    } else if i == 2 {
        1
    } else if i == 3 {
        10
    } else if i == 4 {
        -9
    } else if i == 5 {
        -11
    } else if i == 6 {
        11
    } else if i == 7 {
        9
    } else {
        0
    }
}

/// The step of a piece in its `i`-th direction; 0 where the piece has no such direction.
pub open spec fn spec_piece_dir(p: PieceType, i: int) -> int {
    if i < 0 || i >= spec_number_of_dirs(p) {
        0
    } else if p.spec_is_knight() {
        spec_knight_dir(i)
    } else if p.spec_is_king() || p.spec_is_rook_queen() {
        spec_royal_dir(i)
    } else {
        spec_royal_dir(i + 4)
    }
}

pub fn number_of_dirs(p: PieceType) -> (n: usize)
    ensures
        n == spec_number_of_dirs(p),
{
    if p.is_knight() || p.is_king() {
        8
    } else if p.is_rook_queen() && p.is_bishop_queen() {
        8
    } else if p.is_slider() {
        4
    } else {
        0
    }
}

fn knight_dir(i: usize) -> (d: i8)
    ensures
        d == spec_knight_dir(i as int),
{
    if i == 0 {
        -8
    } else if i == 1 {
        -19
    } else if i == 2 {
        -21
    } else if i == 3 {
        -12
    } else if i == 4 {
        8
    } else if i == 5 {
        19
    } else if i == 6 {
        21
    } else if i == 7 {
        12
    } else {
        0
    }
}

fn royal_dir(i: usize) -> (d: i8)
    ensures
        d == spec_royal_dir(i as int),
{
    if i == 0 {
        -1
    } else if i == 1 {
        -10
    } else if i == 2 {
        1
    } else if i == 3 {
        10
    } else if i == 4 {
        -9
    } else if i == 5 {
        -11
    } else if i == 6 {
        11
    } else if i == 7 {
        9
    } else {
        0
    }
}

pub fn piece_dir(p: PieceType, i: usize) -> (d: i8)
    ensures
        d == spec_piece_dir(p, i as int),
        -21 <= d <= 21,
        i < spec_number_of_dirs(p) ==> d != 0,
{
    if i >= number_of_dirs(p) {
        0
    } else if p.is_knight() {
        knight_dir(i)
    } else if p.is_king() || p.is_rook_queen() {
        royal_dir(i)
    } else {
        royal_dir(i + 4)
    }
}

/// The square one step from a playable square: an index of the padded board.
pub(crate) fn step_from(sq: u8, dir: i8) -> (t: u8)
    requires
        on_board(sq as int),
        -21 <= dir <= 21,
    ensures
        t == sq + dir,
        t < BOARD_SQUARE_NUM,
{
    ((sq as i16) + (dir as i16)) as u8
}

/// What a ray from a square meets first: the first piece in the direction, or the
/// off-board sentinel where the ray leaves the board before it meets one.
pub open spec fn ray_hit(placement: Seq<PieceType>, cur: int, dir: int) -> PieceType
    decreases
            (if dir > 0 {
                120 - cur
            } else {
                cur
            }),
{
    let next = cur + dir;
    if dir == 0 || next < 0 || next >= 120 {
        PieceType::OffBoard
    } else if placement[next] == PieceType::Empty {
        ray_hit(placement, next, dir)
    } else {
        placement[next]
    }
}

/// A pawn of the side stands where it attacks the square.
pub open spec fn pawn_attacks(placement: Seq<PieceType>, sq: int, by: Colours) -> bool {
    match by {
        Colours::White => placement[sq - 11] == PieceType::WhitePawn || placement[sq - 9]
            == PieceType::WhitePawn,
        Colours::Black => placement[sq + 11] == PieceType::BlackPawn || placement[sq + 9]
            == PieceType::BlackPawn,
        Colours::Both => false,
    }
}

/// A knight of the side stands one knight's step from the square in the `i`-th direction.
pub open spec fn knight_attacks(placement: Seq<PieceType>, sq: int, by: Colours, i: int) -> bool {
    let p = placement[sq + spec_knight_dir(i)];
    p.spec_is_knight() && p.spec_colour() == by
}

/// The king of the side stands next to the square in the `i`-th direction.
pub open spec fn king_attacks(placement: Seq<PieceType>, sq: int, by: Colours, i: int) -> bool {
    placement[sq + spec_royal_dir(i)] == spec_king_of(by)
}

/// The ray from the square in the `i`-th direction meets a piece of the side that moves
/// along it: a rook or queen on the first four directions, a bishop or queen on the others.
pub open spec fn slider_attacks(placement: Seq<PieceType>, sq: int, by: Colours, i: int) -> bool {
    let p = ray_hit(placement, sq, spec_royal_dir(i));
    p.spec_colour() == by && (if i < 4 {
        p.spec_is_rook_queen()
    } else {
        p.spec_is_bishop_queen()
    })
}

/// A playable square is attacked by a player if one of that player's pieces could capture
/// on it: a pawn, a knight, a piece moving along a line with nothing in between, or the king.
pub open spec fn attacked(placement: Seq<PieceType>, sq: int, by: Colours) -> bool {
    &&& on_board(sq)
    &&& by.spec_is_player()
    &&& (pawn_attacks(placement, sq, by) || (exists|i: int|
        0 <= i < 8 && #[trigger] knight_attacks(placement, sq, by, i)) || (exists|i: int|
        0 <= i < 8 && #[trigger] slider_attacks(placement, sq, by, i)) || (exists|i: int|
        0 <= i < 8 && #[trigger] king_attacks(placement, sq, by, i)))
}

/// A king of the side stands on a square that the other side attacks.
pub open spec fn in_check(placement: Seq<PieceType>, side: Colours) -> bool {
    exists|sq: int| #[trigger]
        on_board(sq) && placement[sq] == spec_king_of(side) && side.spec_is_player()
            && attacked(placement, sq, side.spec_opponent())
}

/// Walks a ray from a playable square to the first piece or to the edge of the board.
pub(crate) fn walk_ray(pieces: &Vec<PieceType>, sq: u8, dir: i8) -> (p: PieceType)
    requires
        board_shape(pieces@),
        on_board(sq as int),
        -21 <= dir <= 21,
        dir != 0,
    ensures
        p == ray_hit(pieces@, sq as int, dir as int),
{
    let mut cur: u8 = sq;
    loop
        invariant
            board_shape(pieces@),
            on_board(cur as int),
            -21 <= dir <= 21,
            dir != 0,
            ray_hit(pieces@, cur as int, dir as int) == ray_hit(pieces@, sq as int, dir as int),
        decreases
                (if dir > 0 {
                    120 - cur
                } else {
                    cur as int
                }),
    {
        let next: u8 = step_from(cur, dir);
        let p = pieces[next as usize];
        if p != PieceType::Empty {
            return p;
        }
        cur = next;
    }
}

/// Whether a square is attacked by a player, on a placement of the board's shape.
pub(crate) fn square_attacked(pieces: &Vec<PieceType>, sq: u8, by: Colours) -> (b: bool)
    requires
        board_shape(pieces@),
    ensures
        b == attacked(pieces@, sq as int, by),
{
    if !is_on_board(sq) || !by.is_player() {
        return false;
    }
    if by == Colours::White {
        if pieces[(sq - 11) as usize] == PieceType::WhitePawn || pieces[(sq - 9) as usize]
            == PieceType::WhitePawn {
            return true;
        }
    } else {
        if pieces[(sq + 11) as usize] == PieceType::BlackPawn || pieces[(sq + 9) as usize]
            == PieceType::BlackPawn {
            return true;
        }
    }
    let mut i: usize = 0;
    while i < 8
        invariant
            i <= 8,
            board_shape(pieces@),
            on_board(sq as int),
            by.spec_is_player(),
            !pawn_attacks(pieces@, sq as int, by),
            forall|j: int| 0 <= j < i ==> !#[trigger] knight_attacks(pieces@, sq as int, by, j),
        decreases 8 - i,
    {
        let p = pieces[step_from(sq, knight_dir(i)) as usize];
        if p.is_knight() && p.colour() == by {
            assert(knight_attacks(pieces@, sq as int, by, i as int));
            return true;
        }
        i += 1;
    }
    let mut i: usize = 0;
    while i < 8
        invariant
            i <= 8,
            board_shape(pieces@),
            on_board(sq as int),
            by.spec_is_player(),
            !pawn_attacks(pieces@, sq as int, by),
            forall|j: int| 0 <= j < 8 ==> !#[trigger] knight_attacks(pieces@, sq as int, by, j),
            forall|j: int| 0 <= j < i ==> !#[trigger] slider_attacks(pieces@, sq as int, by, j),
        decreases 8 - i,
    {
        let p = walk_ray(pieces, sq, royal_dir(i));
        if p.colour() == by && (if i < 4 {
            p.is_rook_queen()
        } else {
            p.is_bishop_queen()
        }) {
            assert(slider_attacks(pieces@, sq as int, by, i as int));
            return true;
        }
        i += 1;
    }
    let mut i: usize = 0;
    while i < 8
        invariant
            i <= 8,
            board_shape(pieces@),
            on_board(sq as int),
            by.spec_is_player(),
            !pawn_attacks(pieces@, sq as int, by),
            forall|j: int| 0 <= j < 8 ==> !#[trigger] knight_attacks(pieces@, sq as int, by, j),
            forall|j: int| 0 <= j < 8 ==> !#[trigger] slider_attacks(pieces@, sq as int, by, j),
            forall|j: int| 0 <= j < i ==> !#[trigger] king_attacks(pieces@, sq as int, by, j),
        decreases 8 - i,
    {
        if pieces[step_from(sq, royal_dir(i)) as usize] == king_of(by) {
            assert(king_attacks(pieces@, sq as int, by, i as int));
            return true;
        }
        i += 1;
    }
    false
}

/// Whether a king of a side stands attacked, on a placement of the board's shape.
pub(crate) fn side_in_check(pieces: &Vec<PieceType>, side: Colours) -> (b: bool)
    requires
        board_shape(pieces@),
    ensures
        b == in_check(pieces@, side),
{
    if !side.is_player() {
        return false;
    }
    let king = king_of(side);
    let mut sq: u8 = 21;
    while sq < 99
        invariant
            21 <= sq <= 99,
            board_shape(pieces@),
            side.spec_is_player(),
            king == spec_king_of(side),
            forall|s: int|
                0 <= s < sq ==> !(#[trigger] on_board(s) && pieces@[s] == king && attacked(
                    pieces@,
                    s,
                    side.spec_opponent(),
                )),
        decreases 99 - sq,
    {
        if pieces[sq as usize] == king && square_attacked(pieces, sq, side.opponent()) {
            return true;
        }
        sq += 1;
    }
    false
}

impl Board {
    /// Whether a square is attacked by a player: whether one of that player's pieces could
    /// capture on it. No square outside the playable area is attacked, and `Both` attacks
    /// nothing.
    pub fn is_square_attacked(&self, sq: u8, by: Colours) -> (b: bool)
        requires
            self.inv(),
        ensures
            b == attacked(self@.placement, sq as int, by),
    {
        square_attacked(&self.pieces, sq, by)
    }

    /// Whether a king of a side stands on an attacked square.
    pub fn is_in_check(&self, side: Colours) -> (b: bool)
        requires
            self.inv(),
        ensures
            b == in_check(self@.placement, side),
    {
        side_in_check(&self.pieces, side)
    }
}

} // verus!
