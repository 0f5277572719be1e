use vstd::prelude::*;
use vstd::string::StringSliceAdditionalSpecFns;
use crate::board::{board_shape, hash_position, Board, BoardState, MAX_COUNTER};
use crate::defines::{is_on_board, on_board, Colours, PieceType, BOARD_SQUARE_NUM, NO_SQUARE};
use crate::notation::{
    piece_from_char, spec_piece_from_char, spec_square_from_name, square_from_name,
};
use crate::zobrist::KeyTable;

verus! {

/// Why a text is no position.
#[derive(Clone, Copy, Debug, PartialEq, Eq, Structural)]
pub enum ParseError {
    /// The text does not have six fields.
    FieldCount,
    /// The placement does not have eight ranks.
    RankCount,
    /// A rank holds a character that is neither a piece letter nor a digit from 1 to 8.
    InvalidPiece,
    /// The squares of a rank do not add up to eight.
    RankLength,
    /// The side to move is neither `w` nor `b`.
    InvalidSide,
    /// The castling rights are neither `-` nor letters out of `KQkq`.
    InvalidCastling,
    /// The en-passant target is neither `-` nor the name of a square.
    InvalidEnPassant,
    /// A counter is no decimal number, or is above `MAX_COUNTER`.
    InvalidCounter,
}

/// What a text in Forsyth-Edwards notation says, as a mathematical value.
pub struct PositionView {
    pub placement: Seq<PieceType>,
    pub side: Colours,
    pub castle_rights: u8,
    pub en_passant: u8,
    pub halfmove_clock: u32,
    pub fullmove: u32,
}

/// What a text in Forsyth-Edwards notation says.
pub struct Position {
    pub pieces: Vec<PieceType>,
    pub side: Colours,
    pub castle_rights: u8,
    pub en_passant: u8,
    pub halfmove_clock: u32,
    pub fullmove: u32,
}

impl View for Position {
    type V = PositionView;

    open spec fn view(&self) -> PositionView {
        PositionView {
            placement: self.pieces@,
            side: self.side,
            castle_rights: self.castle_rights,
            en_passant: self.en_passant,
            halfmove_clock: self.halfmove_clock,
            fullmove: self.fullmove,
        }
    }
}

/// The parts of a text between its separators; a text without separator is its only part.
pub open spec fn split(s: Seq<u8>, sep: u8) -> Seq<Seq<u8>>
    decreases s.len(),
{
    if s.len() == 0 {
        seq![Seq::<u8>::empty()]
    } else {
        let init = split(s.drop_last(), sep);
        if s.last() == sep {
            init.push(Seq::<u8>::empty())
        } else {
            init.drop_last().push(init.last().push(s.last()))
        }
    }
}

/// The texts that a vector of byte vectors holds.
pub open spec fn views(v: Seq<Vec<u8>>) -> Seq<Seq<u8>> {
    Seq::new(v.len(), |i: int| v[i]@)
}

/// A run of empty squares.
pub open spec fn empties(k: int) -> Seq<PieceType> {
    Seq::new(k as nat, |i: int| PieceType::Empty)
}

/// The squares of a rank after one more character: a digit from 1 to 8 adds so many empty
/// squares, a piece letter adds the piece.
pub open spec fn cell_step(cells: Seq<PieceType>, c: u8) -> Result<Seq<PieceType>, ParseError> {
    if 49 <= c <= 56 {
        Ok(cells + empties(c - 48))
    } else {
        match spec_piece_from_char(c) {
            Some(p) => Ok(cells.push(p)),
            None => Err(ParseError::InvalidPiece),
        }
    }
}

/// The squares that the first `n` characters of a rank describe.
pub open spec fn rank_cells(r: Seq<u8>, n: int) -> Result<Seq<PieceType>, ParseError>
    decreases n,
{
    if n <= 0 {
        Ok(Seq::empty())
    } else {
        match rank_cells(r, n - 1) {
            Ok(cells) => cell_step(cells, r[n - 1]),
            Err(e) => Err(e),
        }
    }
}

/// The eight squares of a rank.
pub open spec fn rank_result(r: Seq<u8>) -> Result<Seq<PieceType>, ParseError> {
    match rank_cells(r, r.len() as int) {
        Ok(cells) => if cells.len() == 8 {
            Ok(cells)
        } else {
            Err(ParseError::RankLength)
        },
        Err(e) => Err(e),
    }
}

/// The error of the first of the first `n` ranks that has one.
pub open spec fn first_rank_error(ranks: Seq<Seq<u8>>, n: int) -> Option<ParseError>
    decreases n,
{
    if n <= 0 {
        None
    } else {
        match first_rank_error(ranks, n - 1) {
            Some(e) => Some(e),
            None => match rank_result(ranks[n - 1]) {
                Ok(_) => None,
                Err(e) => Some(e),
            },
        }
    }
}

/// The piece that eight ranks, the eighth first, put on a square of the padded board.
pub open spec fn placed(ranks: Seq<Seq<u8>>, sq: int) -> PieceType {
    if on_board(sq) {
        match rank_result(ranks[9 - sq / 10]) {
            Ok(cells) => cells[sq % 10 - 1],
            Err(_) => PieceType::Empty,
        }
    } else {
        PieceType::OffBoard
    }
}

/// The placement field: eight ranks between slashes, the eighth first.
pub open spec fn parse_placement(f: Seq<u8>) -> Result<Seq<PieceType>, ParseError> {
    let ranks = split(f, 47);
    if ranks.len() != 8 {
        Err(ParseError::RankCount)
    } else {
        match first_rank_error(ranks, 8) {
            Some(e) => Err(e),
            None => Ok(Seq::new(BOARD_SQUARE_NUM as nat, |sq: int| placed(ranks, sq))),
        }
    }
}

/// The side field: `w` or `b`.
pub open spec fn parse_side(f: Seq<u8>) -> Result<Colours, ParseError> {
    if f.len() == 1 && f[0] == 119 {
        Ok(Colours::White)
    } else if f.len() == 1 && f[0] == 98 {
        Ok(Colours::Black)
    } else {
        Err(ParseError::InvalidSide)
    }
}

/// The right a letter of the castling field stands for; 0 for any other character.
pub open spec fn castle_char_bit(c: u8) -> u8 {
    if c == 75 {
        1
    } else if c == 81 {
        2
    } else if c == 107 {
        4
    } else if c == 113 {
        8
    } else {
        0
    }
}

/// The rights the first `n` letters of the castling field stand for.
pub open spec fn castle_bits(f: Seq<u8>, n: int) -> u8
    decreases n,
{
    if n <= 0 {
        0
    } else {
        castle_bits(f, n - 1) | castle_char_bit(f[n - 1])
    }
}

/// The castling field: `-`, or letters out of `KQkq` in any order.
pub open spec fn parse_castling(f: Seq<u8>) -> Result<u8, ParseError> {
    if f.len() == 1 && f[0] == 45 {
        Ok(0)
    } else if f.len() > 0 && (forall|i: int| 0 <= i < f.len() ==> castle_char_bit(#[trigger] f[i]) != 0) {
        Ok(castle_bits(f, f.len() as int))
    } else {
        Err(ParseError::InvalidCastling)
    }
}

/// The en-passant field: `-`, or the name of a square.
pub open spec fn parse_en_passant(f: Seq<u8>) -> Result<u8, ParseError> {
    if f.len() == 1 && f[0] == 45 {
        Ok(NO_SQUARE)
    } else if f.len() == 2 && spec_square_from_name(f[0], f[1]) != NO_SQUARE {
        Ok(spec_square_from_name(f[0], f[1]))
    } else {
        Err(ParseError::InvalidEnPassant)
    }
}

/// Every character of a text is a decimal digit.
pub open spec fn all_digits(f: Seq<u8>) -> bool {
    forall|i: int| 0 <= i < f.len() ==> 48 <= #[trigger] f[i] <= 57
}

/// The number that the first `n` digits of a text write.
pub open spec fn decimal_value(f: Seq<u8>, n: int) -> int
    decreases n,
{
    if n <= 0 {
        0
    } else {
        decimal_value(f, n - 1) * 10 + (f[n - 1] - 48)
    }
}

/// A counter field: a decimal number up to `MAX_COUNTER`.
pub open spec fn parse_counter(f: Seq<u8>) -> Result<u32, ParseError> {
    if f.len() > 0 && all_digits(f) && decimal_value(f, f.len() as int) <= MAX_COUNTER {
        Ok(decimal_value(f, f.len() as int) as u32)
    } else {
        Err(ParseError::InvalidCounter)
    }
}

/// What a text in Forsyth-Edwards notation says: six fields between single blanks, read in
/// their order, and the error of the first field that has one.
pub open spec fn parse_fen(text: Seq<u8>) -> Result<PositionView, ParseError> {
    let f = split(text, 32);
    if f.len() != 6 {
        Err(ParseError::FieldCount)
    } else if parse_placement(f[0]) is Err {
        Err(parse_placement(f[0])->Err_0)
    } else if parse_side(f[1]) is Err {
        Err(parse_side(f[1])->Err_0)
    } else if parse_castling(f[2]) is Err {
        Err(parse_castling(f[2])->Err_0)
    } else if parse_en_passant(f[3]) is Err {
        Err(parse_en_passant(f[3])->Err_0)
    } else if parse_counter(f[4]) is Err {
        Err(parse_counter(f[4])->Err_0)
    } else if parse_counter(f[5]) is Err {
        Err(parse_counter(f[5])->Err_0)
    } else {
        Ok(
            PositionView {
                placement: parse_placement(f[0])->Ok_0,
                side: parse_side(f[1])->Ok_0,
                castle_rights: parse_castling(f[2])->Ok_0,
                en_passant: parse_en_passant(f[3])->Ok_0,
                halfmove_clock: parse_counter(f[4])->Ok_0,
                fullmove: parse_counter(f[5])->Ok_0,
            },
        )
    }
}

/// The board that a position is set up as: nothing to take back, and the key of the
/// position.
pub open spec fn state_of(t: KeyTable, p: PositionView) -> BoardState {
    BoardState {
        placement: p.placement,
        side: p.side,
        castle_rights: p.castle_rights,
        en_passant: p.en_passant,
        halfmove_clock: p.halfmove_clock,
        fullmove: p.fullmove,
        key: t.position_hash(p.placement, p.side, p.castle_rights, p.en_passant),
        history: Seq::empty(),
    }
}

/// Splits a text at a separator.
pub fn split_bytes(text: &[u8], sep: u8) -> (parts: Vec<Vec<u8>>)
    ensures
        views(parts@) == split(text@, sep),
{
    let mut done: Vec<Vec<u8>> = Vec::new();
    let mut cur: Vec<u8> = Vec::new();
    let mut i: usize = 0;
    assert(text@.take(0) =~= Seq::<u8>::empty());
    assert(views(done@).push(cur@) =~= split(text@.take(0), sep));
    while i < text.len()
        invariant
            i <= text.len(),
            views(done@).push(cur@) == split(text@.take(i as int), sep),
        decreases text.len() - i,
    {
        let c: u8 = text[i];
        let ghost before = views(done@).push(cur@);
        proof {
            assert(text@.take(i + 1).drop_last() =~= text@.take(i as int));
            assert(text@.take(i + 1).last() == c);
        }
        if c == sep {
            done.push(cur);
            cur = Vec::new();
            assert(views(done@).push(cur@) =~= before.push(Seq::<u8>::empty()));
        } else {
            cur.push(c);
            assert(views(done@).push(cur@) =~= before.drop_last().push(before.last().push(c)));
        }
        i += 1;
    }
    assert(text@.take(text@.len() as int) =~= text@);
    let ghost before = views(done@).push(cur@);
    done.push(cur);
    assert(views(done@) =~= before);
    done
}

/// Reads the eight squares of a rank.
fn parse_rank(r: &Vec<u8>) -> (res: Result<Vec<PieceType>, ParseError>)
    ensures
        rank_result(r@) is Ok ==> res is Ok && res->Ok_0@ == rank_result(r@)->Ok_0,
        rank_result(r@) is Err ==> res is Err && res->Err_0 == rank_result(r@)->Err_0,
{
    let mut cells: Vec<PieceType> = Vec::new();
    let mut i: usize = 0;
    while i < r.len()
        invariant
            i <= r.len(),
            rank_cells(r@, i as int) == Ok::<Seq<PieceType>, ParseError>(cells@),
        decreases r.len() - i,
    {
        let c: u8 = r[i];
        if 49 <= c && c <= 56 {
            let ghost base = cells@;
            let n: u8 = c - 48;
            let mut k: u8 = 0;
            assert(cells@ =~= base + empties(0));
            while k < n
                invariant
                    k <= n,
                    cells@ == base + empties(k as int),
                decreases n - k,
            {
                cells.push(PieceType::Empty);
                k += 1;
                assert(cells@ =~= base + empties(k as int));
            }
        } else {
            match piece_from_char(c) {
                Some(p) => {
                    cells.push(p);
                },
                None => {
                    proof {
                        lemma_rank_error_stays(r@, i + 1, r@.len() as int);
                    }
                    return Err(ParseError::InvalidPiece);
                },
            }
        }
        i += 1;
    }
    if cells.len() == 8 {
        Ok(cells)
    } else {
        Err(ParseError::RankLength)
    }
}

/// Once the characters of a rank have run into an error, more characters keep it.
proof fn lemma_rank_error_stays(r: Seq<u8>, n: int, m: int)
    requires
        0 <= n <= m,
        rank_cells(r, n) is Err,
    ensures
        rank_cells(r, m) == rank_cells(r, n),
    decreases m - n,
{
    if n < m {
        lemma_rank_error_stays(r, n, m - 1);
    }
}

/// Reads the placement field.
fn parse_placement_field(f: &Vec<u8>) -> (res: Result<Vec<PieceType>, ParseError>)
    ensures
        parse_placement(f@) is Ok ==> res is Ok && res->Ok_0@ == parse_placement(f@)->Ok_0,
        parse_placement(f@) is Err ==> res is Err && res->Err_0 == parse_placement(f@)->Err_0,
{
    let ranks = split_bytes(f.as_slice(), 47);
    if ranks.len() != 8 {
        return Err(ParseError::RankCount);
    }
    let ghost texts = split(f@, 47);
    let mut rows: Vec<Vec<PieceType>> = Vec::new();
    let mut j: usize = 0;
    while j < 8
        invariant
            j <= 8,
            ranks@.len() == 8,
            texts == views(ranks@),
            texts == split(f@, 47),
            rows@.len() == j,
            first_rank_error(texts, j as int) is None,
            forall|k: int|
                0 <= k < j ==> rank_result(texts[k]) == Ok::<Seq<PieceType>, ParseError>(
                    #[trigger] rows@[k]@,
                ),
        decreases 8 - j,
    {
        assert(texts[j as int] == ranks@[j as int]@);
        match parse_rank(&ranks[j]) {
            Ok(cells) => {
                rows.push(cells);
            },
            Err(e) => {
                proof {
                    lemma_first_rank_error_stays(texts, j + 1, 8);
                }
                return Err(e);
            },
        }
        j += 1;
    }
    let mut pieces: Vec<PieceType> = Vec::new();
    let mut sq: u8 = 0;
    while sq < 120
        invariant
            sq <= 120,
            rows@.len() == 8,
            pieces@.len() == sq,
            forall|k: int|
                0 <= k < 8 ==> rank_result(texts[k]) == Ok::<Seq<PieceType>, ParseError>(
                    #[trigger] rows@[k]@,
                ),
            forall|i: int| 0 <= i < sq ==> #[trigger] pieces@[i] == placed(texts, i),
        decreases 120 - sq,
    {
        if is_on_board(sq) {
            let row: usize = (9 - sq / 10) as usize;
            let file: usize = (sq % 10 - 1) as usize;
            assert(rank_result(texts[row as int]) == Ok::<Seq<PieceType>, ParseError>(
                rows@[row as int]@,
            ));
            pieces.push(rows[row][file]);
        } else {
            pieces.push(PieceType::OffBoard);
        }
        sq += 1;
    }
    assert(pieces@ =~= parse_placement(f@)->Ok_0);
    Ok(pieces)
}

/// Once the ranks have run into an error, more ranks keep it.
proof fn lemma_first_rank_error_stays(ranks: Seq<Seq<u8>>, n: int, m: int)
    requires
        0 <= n <= m,
        first_rank_error(ranks, n) is Some,
    ensures
        first_rank_error(ranks, m) == first_rank_error(ranks, n),
    decreases m - n,
{
    if n < m {
        lemma_first_rank_error_stays(ranks, n, m - 1);
    }
}

/// Reads the side field.
fn parse_side_field(f: &Vec<u8>) -> (res: Result<Colours, ParseError>)
    ensures
        res == parse_side(f@),
{
    if f.len() == 1 && f[0] == 119 {
        Ok(Colours::White)
    } else if f.len() == 1 && f[0] == 98 {
        Ok(Colours::Black)
    } else {
        Err(ParseError::InvalidSide)
    }
}

fn castle_bit_of(c: u8) -> (bit: u8)
    ensures
        bit == castle_char_bit(c),
        bit < 16,
{
    if c == 75 {
        1
    } else if c == 81 {
        2
    } else if c == 107 {
        4
    } else if c == 113 {
        8
    } else {
        0
    }
}

/// Reads the castling field.
fn parse_castling_field(f: &Vec<u8>) -> (res: Result<u8, ParseError>)
    ensures
        res == parse_castling(f@),
        res is Ok ==> res->Ok_0 < 16,
{
    if f.len() == 1 && f[0] == 45 {
        return Ok(0);
    }
    if f.len() == 0 {
        return Err(ParseError::InvalidCastling);
    }
    let mut rights: u8 = 0;
    let mut i: usize = 0;
    while i < f.len()
        invariant
            i <= f.len(),
            f@.len() > 0,
            !(f@.len() == 1 && f@[0] == 45),
            rights == castle_bits(f@, i as int),
            rights < 16,
            forall|k: int| 0 <= k < i ==> castle_char_bit(#[trigger] f@[k]) != 0,
        decreases f.len() - i,
    {
        let bit: u8 = castle_bit_of(f[i]);
        if bit == 0 {
            assert(castle_char_bit(f@[i as int]) == 0);
            return Err(ParseError::InvalidCastling);
        }
        assert((rights | bit) < 16) by (bit_vector)
            requires
                rights < 16,
                bit < 16,
        ;
        rights = rights | bit;
        i += 1;
    }
    Ok(rights)
}

/// Reads the en-passant field.
fn parse_en_passant_field(f: &Vec<u8>) -> (res: Result<u8, ParseError>)
    ensures
        res == parse_en_passant(f@),
        res is Ok ==> res->Ok_0 == NO_SQUARE || on_board(res->Ok_0 as int),
{
    if f.len() == 1 && f[0] == 45 {
        Ok(NO_SQUARE)
    } else if f.len() == 2 {
        let sq: u8 = square_from_name(f[0], f[1]);
        if sq != NO_SQUARE {
            Ok(sq)
        } else {
            Err(ParseError::InvalidEnPassant)
        }
    } else {
        Err(ParseError::InvalidEnPassant)
    }
}

/// The number that digits write does not shrink when more digits follow.
proof fn lemma_decimal_value_grows(f: Seq<u8>, n: int, m: int)
    requires
        0 <= n <= m <= f.len(),
        all_digits(f),
    ensures
        0 <= decimal_value(f, n) <= decimal_value(f, m),
    decreases m - n,
{
    if n < m {
        lemma_decimal_value_grows(f, n, m - 1);
        assert(48 <= f[m - 1] <= 57);
    } else {
        lemma_decimal_value_nonnegative(f, n);
    }
}

proof fn lemma_decimal_value_nonnegative(f: Seq<u8>, n: int)
    requires
        0 <= n <= f.len(),
        all_digits(f),
    ensures
        0 <= decimal_value(f, n),
    decreases n,
{
    if n > 0 {
        lemma_decimal_value_nonnegative(f, n - 1);
        assert(48 <= f[n - 1] <= 57);
    }
}

/// Reads a counter field.
fn parse_counter_field(f: &Vec<u8>) -> (res: Result<u32, ParseError>)
    ensures
        res == parse_counter(f@),
        res is Ok ==> res->Ok_0 <= MAX_COUNTER,
{
    if f.len() == 0 {
        return Err(ParseError::InvalidCounter);
    }
    let mut value: u32 = 0;
    let mut i: usize = 0;
    while i < f.len()
        invariant
            i <= f.len(),
            value == decimal_value(f@, i as int),
            value <= MAX_COUNTER,
            forall|k: int| 0 <= k < i ==> 48 <= #[trigger] f@[k] <= 57,
        decreases f.len() - i,
    {
        let c: u8 = f[i];
        if c < 48 || c > 57 {
            return Err(ParseError::InvalidCounter);
        }
        value = value * 10 + (c - 48) as u32;
        if value > MAX_COUNTER {
            proof {
                if all_digits(f@) {
                    lemma_decimal_value_grows(f@, i + 1, f@.len() as int);
                }
            }
            return Err(ParseError::InvalidCounter);
        }
        i += 1;
    }
    Ok(value)
}

/// Reads a position in Forsyth-Edwards notation.
pub fn parse_fen_bytes(text: &[u8]) -> (res: Result<Position, ParseError>)
    ensures
        parse_fen(text@) is Ok ==> res is Ok && res->Ok_0@ == parse_fen(text@)->Ok_0,
        parse_fen(text@) is Err ==> res is Err && res->Err_0 == parse_fen(text@)->Err_0,
        res is Ok ==> board_shape(res->Ok_0@.placement) && res->Ok_0@.castle_rights < 16 && (
        res->Ok_0@.en_passant == NO_SQUARE || on_board(res->Ok_0@.en_passant as int))
            && res->Ok_0@.halfmove_clock <= MAX_COUNTER && res->Ok_0@.fullmove <= MAX_COUNTER
            && res->Ok_0@.side.spec_is_player(),
{
    let fields = split_bytes(text, 32);
    if fields.len() != 6 {
        return Err(ParseError::FieldCount);
    }
    let ghost f = split(text@, 32);
    assert(f[0] == fields@[0]@ && f[1] == fields@[1]@ && f[2] == fields@[2]@ && f[3]
        == fields@[3]@ && f[4] == fields@[4]@ && f[5] == fields@[5]@);
    let pieces = match parse_placement_field(&fields[0]) {
        Ok(p) => p,
        Err(e) => {
            return Err(e);
        },
    };
    let side = match parse_side_field(&fields[1]) {
        Ok(s) => s,
        Err(e) => {
            return Err(e);
        },
    };
    let castle_rights = match parse_castling_field(&fields[2]) {
        Ok(r) => r,
        Err(e) => {
            return Err(e);
        },
    };
    let en_passant = match parse_en_passant_field(&fields[3]) {
        Ok(sq) => sq,
        Err(e) => {
            return Err(e);
        },
    };
    let halfmove_clock = match parse_counter_field(&fields[4]) {
        Ok(n) => n,
        Err(e) => {
            return Err(e);
        },
    };
    let fullmove = match parse_counter_field(&fields[5]) {
        Ok(n) => n,
        Err(e) => {
            return Err(e);
        },
    };
    proof {
        lemma_placement_shape(f[0]);
    }
    Ok(Position { pieces, side, castle_rights, en_passant, halfmove_clock, fullmove })
}

/// Every placement that can be read has the shape of the board.
pub proof fn lemma_placement_shape(f: Seq<u8>)
    requires
        parse_placement(f) is Ok,
    ensures
        board_shape(parse_placement(f)->Ok_0),
{
    let ranks = split(f, 47);
    let placement = parse_placement(f)->Ok_0;
    assert forall|sq: int| 0 <= sq < BOARD_SQUARE_NUM implies ((#[trigger] placement[sq]
        == PieceType::OffBoard) <==> !on_board(sq)) by {
        if on_board(sq) {
            let k = 9 - sq / 10;
            lemma_no_rank_error(ranks, 8, k);
            lemma_rank_cells_on_board(ranks[k], ranks[k].len() as int, sq % 10 - 1);
        }
    }
}

/// Where the first `n` ranks have no error, none of them has one.
proof fn lemma_no_rank_error(ranks: Seq<Seq<u8>>, n: int, k: int)
    requires
        0 <= k < n,
        first_rank_error(ranks, n) is None,
    ensures
        rank_result(ranks[k]) is Ok,
    decreases n,
{
    if k < n - 1 {
        lemma_no_rank_error(ranks, n - 1, k);
    }
}

/// No character of a rank puts the off-board sentinel on a square.
proof fn lemma_rank_cells_on_board(r: Seq<u8>, n: int, i: int)
    requires
        rank_cells(r, n) is Ok,
        0 <= i < rank_cells(r, n)->Ok_0.len(),
    ensures
        rank_cells(r, n)->Ok_0[i] != PieceType::OffBoard,
    decreases n,
{
    if n > 0 {
        let before = rank_cells(r, n - 1)->Ok_0;
        if i < before.len() {
            lemma_rank_cells_on_board(r, n - 1, i);
        }
    }
}

impl Board {
    /// Sets the board up from a position in Forsyth-Edwards notation. A text that is no
    /// position gives its error and leaves the board as it was. A position replaces the
    /// whole board: the history is empty, and the key is computed from scratch.
    pub fn set_from_fen(&mut self, fen: &str) -> (res: Result<(), ParseError>)
        requires
            old(self).wf(),
        ensures
            final(self).key_table() == old(self).key_table(),
            parse_fen(fen.spec_bytes()) is Ok ==> res is Ok && final(self)@ == state_of(
                old(self).key_table(),
                parse_fen(fen.spec_bytes())->Ok_0,
            ),
            parse_fen(fen.spec_bytes()) is Err ==> res is Err && res->Err_0 == parse_fen(
                fen.spec_bytes(),
            )->Err_0 && final(self)@ == old(self)@,
            final(self).wf(),
    {
        let position = match parse_fen_bytes(fen.as_bytes()) {
            Ok(p) => p,
            Err(e) => {
                return Err(e);
            },
        };
        let key = hash_position(
            &self.keys,
            &position.pieces,
            position.side,
            position.castle_rights,
            position.en_passant,
        );
        self.pieces = position.pieces;
        self.side = position.side;
        self.castle_rights = position.castle_rights;
        self.en_passant = position.en_passant;
        self.halfmove_clock = position.halfmove_clock;
        self.fullmove = position.fullmove;
        self.key = key;
        self.history = Vec::new();
        Ok(())
    }
}

/// Two boards with the same keys that were set up from the same text are the same board,
/// with the same position key.
pub proof fn lemma_same_text_same_key(a: Board, b: Board, text: Seq<u8>)
    requires
        parse_fen(text) is Ok,
        a.key_table() == b.key_table(),
        a@ == state_of(a.key_table(), parse_fen(text)->Ok_0),
        b@ == state_of(b.key_table(), parse_fen(text)->Ok_0),
    ensures
        a@ == b@,
        a@.key == b@.key,
{
}

} // verus!
