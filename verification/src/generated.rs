use vstd::prelude::*;
use crate::attack::{
    attacked, king_attacks, knight_attacks, pawn_attacks, ray_hit, slider_attacks,
    spec_knight_dir, spec_number_of_dirs, spec_piece_dir, spec_royal_dir,
};
use crate::board::{board_shape, position_wf, BoardState};
use crate::defines::{
    captured, from_sq, lemma_encode_decode, on_board, promoted, spec_is_castle, spec_is_en_passant,
    spec_is_pawn_start, spec_pawn_of, to_sq, Colours, PieceType,
};
use crate::history::{move_suits, passed_square};
use crate::movegen::{
    castle_move, castle_ready, dir_moves, dirs_moves, moves_from, moves_upto, mv, pawn_capture, pawn_move,
    pawn_moves, pawn_pushes, plain_move, promotion_piece, pseudo_legal_moves, ray_moves,
    step_moves,
};
use crate::zobrist::KeyTable;

verus! {

/// What holds of a move generated for the piece on a square: it starts on that square, it
/// suits the position, if it castles, the side to move may castle so, and if a piece stands
/// on its destination, the side to move attacks that square.
pub open spec fn generated_ok(s: BoardState, from: int, m: u32) -> bool {
    &&& from_sq(m) == from
    &&& move_suits(s, m)
    &&& spec_is_castle(m) ==> castle_ready(s, from, to_sq(m) as int)
    &&& s.placement[to_sq(m) as int] != PieceType::Empty ==> attacked(
        s.placement,
        to_sq(m) as int,
        s.side,
    )
}

/// What holds of a move generated for the piece on a square holds of each move of a
/// sequence.
pub open spec fn all_ok(s: BoardState, from: int, moves: Seq<u32>) -> bool {
    forall|i: int| 0 <= i < moves.len() ==> generated_ok(s, from, #[trigger] moves[i])
}

/// The direction opposite to the `k`-th direction of a queen or king, as an index of the
/// same table; the opposite of a knight's `k`-th direction is its direction `(k + 4) % 8`.
pub open spec fn opposite_dir(k: int) -> int {
    if k == 0 {
        2
    } else if k == 1 {
        3
    } else if k == 2 {
        0
    } else if k == 3 {
        1
    } else if k == 4 {
        7
    } else if k == 5 {
        6
    } else if k == 6 {
        5
    } else {
        4
    }
}

proof fn lemma_mv_fields(
    from: int,
    to: int,
    cap: PieceType,
    prom: PieceType,
    ep: bool,
    start: bool,
    castle: bool,
)
    requires
        0 <= from < 120,
        0 <= to < 120,
        !prom.spec_is_pawn(),
        !prom.spec_is_king(),
    ensures
        ({
            let m = mv(from, to, cap, prom, ep, start, castle);
            &&& from_sq(m) == from
            &&& to_sq(m) == to
            &&& captured(m) == cap.spec_code()
            &&& promoted(m) == prom.spec_code()
            &&& PieceType::spec_from_code(promoted(m)) == prom
            &&& spec_is_en_passant(m) == ep
            &&& spec_is_pawn_start(m) == start
            &&& spec_is_castle(m) == castle
        }),
{
    lemma_encode_decode(from as u8, to as u8, cap, prom, ep, start, castle);
}

proof fn lemma_plain_ok(t: KeyTable, s: BoardState, from: int, to: int, cap: PieceType)
    requires
        position_wf(t, s),
        on_board(from),
        on_board(to),
        from != to,
        s.placement[from].spec_colour() == s.side,
        cap == s.placement[to],
        cap.spec_colour() != s.side,
        cap != PieceType::Empty ==> attacked(s.placement, to, s.side),
    ensures
        generated_ok(s, from, plain_move(from, to, cap)),
{
    lemma_mv_fields(from, to, cap, PieceType::Empty, false, false, false);
}

proof fn lemma_step_ok(t: KeyTable, s: BoardState, from: int, i: int)
    requires
        position_wf(t, s),
        on_board(from),
        s.placement[from].spec_colour() == s.side,
        s.placement[from].spec_is_knight() || s.placement[from].spec_is_king(),
        0 <= i < 8,
    ensures
        all_ok(s, from, step_moves(s, from, spec_piece_dir(s.placement[from], i))),
{
    let piece = s.placement[from];
    let dir = spec_piece_dir(piece, i);
    let to = from + dir;
    let target = s.placement[to];
    if target.spec_colour() == s.side.spec_opponent() {
        if piece.spec_is_knight() {
            let back = (i + 4) % 8;
            assert(spec_knight_dir(back) == -dir);
            assert(knight_attacks(s.placement, to, s.side, back));
        } else {
            let back = opposite_dir(i);
            assert(spec_royal_dir(back) == -dir);
            assert(king_attacks(s.placement, to, s.side, back));
        }
        assert(attacked(s.placement, to, s.side));
        lemma_plain_ok(t, s, from, to, target);
    } else if target == PieceType::Empty {
        lemma_plain_ok(t, s, from, to, target);
    }
}

proof fn lemma_ray_ok(t: KeyTable, s: BoardState, from: int, cur: int, k: int)
    requires
        position_wf(t, s),
        on_board(from),
        on_board(cur),
        s.placement[from].spec_colour() == s.side,
        0 <= k < 8,
        k < 4 ==> s.placement[from].spec_is_rook_queen(),
        k >= 4 ==> s.placement[from].spec_is_bishop_queen(),
        spec_royal_dir(k) > 0 ==> cur >= from,
        spec_royal_dir(k) < 0 ==> cur <= from,
        cur == from || (s.placement[cur] == PieceType::Empty && ray_hit(
            s.placement,
            cur,
            -spec_royal_dir(k),
        ) == s.placement[from]),
    ensures
        all_ok(s, from, ray_moves(s, from, cur, spec_royal_dir(k))),
    decreases
            (if spec_royal_dir(k) > 0 {
                120 - cur
            } else {
                cur
            }),
{
    let dir = spec_royal_dir(k);
    let next = cur + dir;
    if 0 <= next < 120 {
        let target = s.placement[next];
        let back = opposite_dir(k);
        assert(spec_royal_dir(back) == -dir);
        assert(ray_hit(s.placement, next, -dir) == s.placement[from]);
        if target == PieceType::Empty {
            lemma_plain_ok(t, s, from, next, target);
            lemma_ray_ok(t, s, from, next, k);
        } else if target.spec_colour() == s.side.spec_opponent() {
            assert(slider_attacks(s.placement, next, s.side, back));
            assert(attacked(s.placement, next, s.side));
            lemma_plain_ok(t, s, from, next, target);
        }
    }
}

proof fn lemma_dirs_ok(t: KeyTable, s: BoardState, from: int, n: int)
    requires
        position_wf(t, s),
        on_board(from),
        s.placement[from].spec_colour() == s.side,
        n <= spec_number_of_dirs(s.placement[from]),
    ensures
        all_ok(s, from, dirs_moves(s, from, s.placement[from], n)),
    decreases n,
{
    if n > 0 {
        let piece = s.placement[from];
        lemma_dirs_ok(t, s, from, n - 1);
        if piece.spec_is_slider() {
            let k = if piece.spec_is_rook_queen() {
                n - 1
            } else {
                n + 3
            };
            assert(spec_piece_dir(piece, n - 1) == spec_royal_dir(k));
            lemma_ray_ok(t, s, from, from, k);
        } else {
            lemma_step_ok(t, s, from, n - 1);
        }
    }
}

proof fn lemma_pawn_move_ok(t: KeyTable, s: BoardState, from: int, to: int, cap: PieceType)
    requires
        position_wf(t, s),
        on_board(from),
        on_board(to),
        from != to,
        s.placement[from].spec_is_pawn(),
        s.placement[from].spec_colour() == s.side,
        cap == s.placement[to],
        cap.spec_colour() != s.side,
        cap != PieceType::Empty ==> attacked(s.placement, to, s.side),
    ensures
        all_ok(s, from, pawn_move(s.side, from, to, cap)),
{
    lemma_plain_ok(t, s, from, to, cap);
    lemma_mv_fields(from, to, cap, promotion_piece(s.side, 0), false, false, false);
    lemma_mv_fields(from, to, cap, promotion_piece(s.side, 1), false, false, false);
    lemma_mv_fields(from, to, cap, promotion_piece(s.side, 2), false, false, false);
    lemma_mv_fields(from, to, cap, promotion_piece(s.side, 3), false, false, false);
}

proof fn lemma_pawn_capture_ok(t: KeyTable, s: BoardState, from: int, to: int)
    requires
        position_wf(t, s),
        on_board(from),
        to == passed_square(s.side, from) - 1 || to == passed_square(s.side, from) + 1,
        s.placement[from].spec_is_pawn(),
        s.placement[from].spec_colour() == s.side,
    ensures
        all_ok(s, from, pawn_capture(s, from, to)),
{
    let target = s.placement[to];
    if target.spec_colour() == s.side.spec_opponent() {
        assert(pawn_attacks(s.placement, to, s.side));
        assert(attacked(s.placement, to, s.side));
        lemma_pawn_move_ok(t, s, from, to, target);
    } else if target == PieceType::Empty {
        lemma_mv_fields(from, to, PieceType::Empty, PieceType::Empty, true, false, false);
    }
}

proof fn lemma_pawn_ok(t: KeyTable, s: BoardState, from: int)
    requires
        position_wf(t, s),
        on_board(from),
        s.placement[from].spec_is_pawn(),
        s.placement[from].spec_colour() == s.side,
    ensures
        all_ok(s, from, pawn_moves(s, from)),
{
    let one = passed_square(s.side, from);
    let two = passed_square(s.side, one);
    if s.placement[one] == PieceType::Empty {
        lemma_pawn_move_ok(t, s, from, one, PieceType::Empty);
        lemma_mv_fields(from, two, PieceType::Empty, PieceType::Empty, false, true, false);
    }
    assert(all_ok(s, from, pawn_pushes(s, from)));
    lemma_pawn_capture_ok(t, s, from, one - 1);
    lemma_pawn_capture_ok(t, s, from, one + 1);
}

proof fn lemma_castle_ok(t: KeyTable, s: BoardState, from: int, to: int)
    requires
        position_wf(t, s),
        on_board(from),
        to == from + 2 || to == from - 2,
    ensures
        all_ok(s, from, castle_move(s, from, to)),
{
    if castle_ready(s, from, to) {
        lemma_mv_fields(from, to, PieceType::Empty, PieceType::Empty, false, false, true);
    }
}

proof fn lemma_moves_from_ok(t: KeyTable, s: BoardState, sq: int)
    requires
        position_wf(t, s),
        0 <= sq < 120,
    ensures
        all_ok(s, sq, moves_from(s, sq)),
{
    let piece = s.placement[sq];
    if piece.spec_colour() == s.side {
        if piece.spec_is_pawn() {
            lemma_pawn_ok(t, s, sq);
        } else if piece.spec_is_king() {
            lemma_dirs_ok(t, s, sq, 8);
            lemma_castle_ok(t, s, sq, sq + 2);
            lemma_castle_ok(t, s, sq, sq - 2);
        } else {
            lemma_dirs_ok(t, s, sq, spec_number_of_dirs(piece));
        }
    }
}

/// A move is in the concatenation of two sequences if it is in one of them.
proof fn lemma_concat_contains(a: Seq<u32>, b: Seq<u32>, m: u32)
    ensures
        (a + b).contains(m) <==> (a.contains(m) || b.contains(m)),
{
    if (a + b).contains(m) {
        let i = choose|i: int| 0 <= i < (a + b).len() && (a + b)[i] == m;
        if i < a.len() {
            assert(a[i] == m);
        } else {
            assert(b[i - a.len()] == m);
        }
    }
    if a.contains(m) {
        let i = choose|i: int| 0 <= i < a.len() && a[i] == m;
        assert((a + b)[i] == m);
    }
    if b.contains(m) {
        let i = choose|i: int| 0 <= i < b.len() && b[i] == m;
        assert((a + b)[a.len() + i] == m);
    }
}

proof fn lemma_upto_members(t: KeyTable, s: BoardState, n: int, m: u32)
    requires
        position_wf(t, s),
        0 <= n <= 120,
    ensures
        moves_upto(s, n).contains(m) <==> (from_sq(m) < n && moves_from(
            s,
            from_sq(m) as int,
        ).contains(m)),
    decreases n,
{
    if n > 0 {
        lemma_upto_members(t, s, n - 1, m);
        lemma_concat_contains(moves_upto(s, n - 1), moves_from(s, n - 1), m);
        lemma_moves_from_ok(t, s, n - 1);
        let last = moves_from(s, n - 1);
        if last.contains(m) {
            let i = choose|i: int| 0 <= i < last.len() && last[i] == m;
            assert(generated_ok(s, n - 1, last[i]));
        }
    }
}

/// A move is pseudo-legal exactly if it is one of the moves of the piece on its origin.
pub proof fn lemma_pseudo_legal_by_origin(t: KeyTable, s: BoardState, m: u32)
    requires
        position_wf(t, s),
    ensures
        pseudo_legal_moves(s).contains(m) <==> (from_sq(m) < 120 && moves_from(
            s,
            from_sq(m) as int,
        ).contains(m)),
{
    lemma_upto_members(t, s, 120, m);
}

/// Every pseudo-legal move suits its position, so it can be made and taken back. Its
/// destination is a playable square: no generated move lands outside the board or on the
/// sentinel. And no move castles unless the side to move may: with the right, with empty
/// squares between king and rook, and with the king's three squares unattacked.
pub proof fn lemma_pseudo_legal_moves_sound(t: KeyTable, s: BoardState, m: u32)
    requires
        position_wf(t, s),
        pseudo_legal_moves(s).contains(m),
    ensures
        move_suits(s, m),
        on_board(from_sq(m) as int),
        on_board(to_sq(m) as int),
        s.placement[to_sq(m) as int] != PieceType::OffBoard,
        spec_is_castle(m) ==> castle_ready(s, from_sq(m) as int, to_sq(m) as int),
{
    lemma_pseudo_legal_by_origin(t, s, m);
    let from = from_sq(m) as int;
    lemma_moves_from_ok(t, s, from);
    let moves = moves_from(s, from);
    let i = choose|i: int| 0 <= i < moves.len() && moves[i] == m;
    assert(generated_ok(s, from, moves[i]));
}

/// A pseudo-legal move captures only what the side to move attacks: move generation and
/// attack detection agree.
pub proof fn lemma_capture_is_attack(t: KeyTable, s: BoardState, m: u32)
    requires
        position_wf(t, s),
        pseudo_legal_moves(s).contains(m),
        s.placement[to_sq(m) as int] != PieceType::Empty,
    ensures
        attacked(s.placement, to_sq(m) as int, s.side),
{
    lemma_pseudo_legal_by_origin(t, s, m);
    let from = from_sq(m) as int;
    lemma_moves_from_ok(t, s, from);
    let moves = moves_from(s, from);
    let i = choose|i: int| 0 <= i < moves.len() && moves[i] == m;
    assert(generated_ok(s, from, moves[i]));
}

/// The square of what a ray from a square meets first; -1 where the ray leaves the board
/// before it meets a piece.
pub open spec fn ray_hit_square(placement: Seq<PieceType>, cur: int, dir: int) -> int
    decreases
            (if dir > 0 {
                120 - cur
            } else {
                cur
            }),
{
    let next = cur + dir;
    if dir == 0 || next < 0 || next >= 120 {
        -1
    } else if placement[next] == PieceType::Empty {
        ray_hit_square(placement, next, dir)
    } else {
        next
    }
}

proof fn lemma_ray_hit_square(placement: Seq<PieceType>, cur: int, dir: int)
    requires
        board_shape(placement),
        on_board(cur),
    ensures
        ray_hit(placement, cur, dir).spec_is_piece() ==> 0 <= ray_hit_square(placement, cur, dir)
            < 120 && placement[ray_hit_square(placement, cur, dir)] == ray_hit(
            placement,
            cur,
            dir,
        ),
    decreases
            (if dir > 0 {
                120 - cur
            } else {
                cur
            }),
{
    let next = cur + dir;
    if dir != 0 && 0 <= next < 120 && placement[next] == PieceType::Empty {
        lemma_ray_hit_square(placement, next, dir);
    }
}

/// A move of the piece on a square is a pseudo-legal move.
proof fn lemma_member_of_origin(t: KeyTable, s: BoardState, from: int, to: int, m: u32)
    requires
        position_wf(t, s),
        0 <= from < 120,
        0 <= to < 120,
        m == plain_move(from, to, s.placement[to]) || m == mv(
            from,
            to,
            s.placement[to],
            promotion_piece(s.side, 0),
            false,
            false,
            false,
        ),
        moves_from(s, from).contains(m),
    ensures
        pseudo_legal_moves(s).contains(m),
        to_sq(m) == to,
{
    lemma_mv_fields(from, to, s.placement[to], PieceType::Empty, false, false, false);
    lemma_mv_fields(from, to, s.placement[to], promotion_piece(s.side, 0), false, false, false);
    lemma_pseudo_legal_by_origin(t, s, m);
}

/// The moves of a piece in one of its directions are among its moves in all of them.
proof fn lemma_dir_within_dirs(s: BoardState, from: int, piece: PieceType, i: int, n: int, m: u32)
    requires
        0 <= i < n,
        dir_moves(s, from, piece, i).contains(m),
    ensures
        dirs_moves(s, from, piece, n).contains(m),
    decreases n,
{
    lemma_concat_contains(dirs_moves(s, from, piece, n - 1), dir_moves(s, from, piece, n - 1), m);
    if i < n - 1 {
        lemma_dir_within_dirs(s, from, piece, i, n - 1, m);
    }
}

/// The moves of a knight, bishop, rook, queen or king in one of its directions are among
/// the moves of the piece.
proof fn lemma_dir_within_piece(s: BoardState, from: int, i: int, m: u32)
    requires
        s.side.spec_is_player(),
        s.placement[from].spec_colour() == s.side,
        !s.placement[from].spec_is_pawn(),
        0 <= i < spec_number_of_dirs(s.placement[from]),
        dir_moves(s, from, s.placement[from], i).contains(m),
    ensures
        moves_from(s, from).contains(m),
{
    let piece = s.placement[from];
    lemma_dir_within_dirs(s, from, piece, i, spec_number_of_dirs(piece), m);
    if piece.spec_is_king() {
        let steps = dirs_moves(s, from, piece, 8);
        let short = castle_move(s, from, from + 2);
        lemma_concat_contains(steps, short, m);
        lemma_concat_contains(steps + short, castle_move(s, from, from - 2), m);
    }
}

/// Where a ray from a target leads over empty squares to a piece that moves along it, the
/// moves of that piece along the ray reach the target.
proof fn lemma_ray_back(t: KeyTable, s: BoardState, from: int, to: int, cur: int, k: int)
    requires
        position_wf(t, s),
        0 <= k < 8,
        on_board(to),
        on_board(cur),
        s.placement[to].spec_colour() == s.side.spec_opponent(),
        from == ray_hit_square(s.placement, cur, -spec_royal_dir(k)),
        from >= 0,
        cur == to || (s.placement[cur] == PieceType::Empty && ray_moves(
            s,
            from,
            cur,
            spec_royal_dir(k),
        ).contains(plain_move(from, to, s.placement[to]))),
    ensures
        ray_moves(s, from, from, spec_royal_dir(k)).contains(
            plain_move(from, to, s.placement[to]),
        ),
    decreases
            (if -spec_royal_dir(k) > 0 {
                120 - cur
            } else {
                cur
            }),
{
    let dir = spec_royal_dir(k);
    let m = plain_move(from, to, s.placement[to]);
    let next = cur - dir;
    let here = ray_moves(s, from, next, dir);
    if cur == to {
        assert(here =~= seq![m]);
        assert(here[0] == m);
    } else {
        lemma_concat_contains(
            seq![plain_move(from, cur, PieceType::Empty)],
            ray_moves(s, from, cur, dir),
            m,
        );
    }
    assert(here.contains(m));
    if s.placement[next] == PieceType::Empty {
        lemma_ray_back(t, s, from, to, next, k);
    }
}

/// Move generation and attack detection agree: where a piece of the other side stands on
/// a square that the side to move attacks, a pseudo-legal move captures on that square.
pub proof fn lemma_attack_is_capture(t: KeyTable, s: BoardState, to: int)
    requires
        position_wf(t, s),
        0 <= to < 120,
        s.placement[to].spec_colour() == s.side.spec_opponent(),
        attacked(s.placement, to, s.side),
    ensures
        exists|m: u32| #[trigger] pseudo_legal_moves(s).contains(m) && to_sq(m) == to,
{
    let pl = s.placement;
    let target = pl[to];
    if pawn_attacks(pl, to, s.side) {
        let one = if s.side == Colours::White {
            to - 10
        } else {
            to + 10
        };
        let from = if pl[one - 1] == spec_pawn_of(s.side) {
            one - 1
        } else {
            one + 1
        };
        let ahead = passed_square(s.side, from);
        let take = pawn_move(s.side, from, to, target);
        let m = take[0];
        assert(take.contains(m));
        assert(pawn_capture(s, from, to) == take);
        let left = pawn_capture(s, from, ahead - 1);
        let right = pawn_capture(s, from, ahead + 1);
        lemma_concat_contains(pawn_pushes(s, from), left, m);
        lemma_concat_contains(pawn_pushes(s, from) + left, right, m);
        assert(moves_from(s, from).contains(m));
        lemma_member_of_origin(t, s, from, to, m);
    } else if exists|i: int| 0 <= i < 8 && #[trigger] knight_attacks(pl, to, s.side, i) {
        let i = choose|i: int| 0 <= i < 8 && #[trigger] knight_attacks(pl, to, s.side, i);
        let from = to + spec_knight_dir(i);
        let back = (i + 4) % 8;
        let m = plain_move(from, to, target);
        assert(spec_piece_dir(pl[from], back) == -spec_knight_dir(i));
        assert(step_moves(s, from, spec_piece_dir(pl[from], back)) =~= seq![m]);
        assert(seq![m][0] == m);
        lemma_dir_within_piece(s, from, back, m);
        lemma_member_of_origin(t, s, from, to, m);
    } else if exists|i: int| 0 <= i < 8 && #[trigger] king_attacks(pl, to, s.side, i) {
        let i = choose|i: int| 0 <= i < 8 && #[trigger] king_attacks(pl, to, s.side, i);
        let from = to + spec_royal_dir(i);
        let back = opposite_dir(i);
        let m = plain_move(from, to, target);
        assert(spec_piece_dir(pl[from], back) == -spec_royal_dir(i));
        assert(step_moves(s, from, spec_piece_dir(pl[from], back)) =~= seq![m]);
        assert(seq![m][0] == m);
        lemma_dir_within_piece(s, from, back, m);
        lemma_member_of_origin(t, s, from, to, m);
    } else {
        let i = choose|i: int| 0 <= i < 8 && #[trigger] slider_attacks(pl, to, s.side, i);
        let k = opposite_dir(i);
        assert(spec_royal_dir(i) == -spec_royal_dir(k));
        lemma_ray_hit_square(pl, to, spec_royal_dir(i));
        let from = ray_hit_square(pl, to, spec_royal_dir(i));
        let piece = pl[from];
        let m = plain_move(from, to, target);
        lemma_ray_back(t, s, from, to, to, k);
        let index = if piece.spec_is_rook_queen() {
            k
        } else {
            k - 4
        };
        assert(spec_piece_dir(piece, index) == spec_royal_dir(k));
        lemma_dir_within_piece(s, from, index, m);
        lemma_member_of_origin(t, s, from, to, m);
    }
}

} // verus!
