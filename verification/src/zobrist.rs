use vstd::prelude::*;
use crate::defines::{PieceType, Colours, NO_SQUARE};

verus! {

/// Number of keys for pieces on squares: thirteen rows of 120, the first row for the
/// en-passant target.
pub const PIECE_KEY_NUM: usize = 1560;

/// Number of keys for castling rights, one for each value of the four bits.
pub const CASTLE_KEY_NUM: usize = 16;

/// The seed a board takes its keys from when it is given none.
pub const DEFAULT_SEED: u64 = 0x9E3779B97F4A7C15;

/// The keys as mathematical values.
pub struct KeyTable {
    pub piece: Seq<u64>,
    pub side: u64,
    pub castle: Seq<u64>,
}

impl KeyTable {
    /// The table has its sizes, no piece key is zero, the side key is not zero, and no two
    /// piece keys and no two castling keys are equal: a change of one component of a position
    /// changes its key.
    pub open spec fn wf(self) -> bool {
        &&& self.piece.len() == PIECE_KEY_NUM
        &&& self.castle.len() == CASTLE_KEY_NUM
        &&& self.side != 0
        &&& forall|i: int| 0 <= i < PIECE_KEY_NUM ==> #[trigger] self.piece[i] != 0
        &&& forall|i: int, j: int|
            0 <= i < j < PIECE_KEY_NUM ==> #[trigger] self.piece[i] != #[trigger] self.piece[j]
        &&& forall|i: int, j: int|
            0 <= i < j < CASTLE_KEY_NUM ==> #[trigger] self.castle[i] != #[trigger] self.castle[j]
    }

    /// The key of a piece on a square; an empty or off-board square has none.
    pub open spec fn piece_key(self, p: PieceType, sq: int) -> u64 {
        if p.spec_is_piece() {
            self.piece[p.spec_code() * 120 + sq]
        } else {
            0
        }
    }

    /// The key of an en-passant target; no target, no key.
    pub open spec fn en_passant_key(self, ep: u8) -> u64 {
        if ep < 120 && ep != NO_SQUARE {
            self.piece[ep as int]
        } else {
            0
        }
    }

    /// The key of the side to move: the second player's.
    pub open spec fn side_key(self, side: Colours) -> u64 {
        if side == Colours::Black {
            self.side
        } else {
            0
        }
    }

    /// The keys of the pieces on the first `n` squares of a placement, combined by XOR.
    pub open spec fn placement_hash(self, placement: Seq<PieceType>, n: int) -> u64
        decreases n,
    {
        if n <= 0 {
            0
        } else {
            self.placement_hash(placement, n - 1) ^ self.piece_key(placement[n - 1], n - 1)
        }
    }

    /// The key of a position: the keys of its pieces, of the side to move, of the castling
    /// rights and of the en-passant target, combined by XOR.
    pub open spec fn position_hash(
        self,
        placement: Seq<PieceType>,
        side: Colours,
        rights: u8,
        ep: u8,
    ) -> u64 {
        self.placement_hash(placement, 120) ^ self.side_key(side) ^ self.castle[rights as int]
            ^ self.en_passant_key(ep)
    }
}

/// One step of the generator behind the keys: xorshift with the shifts 13, 7 and 17.
pub open spec fn next_random(x: u64) -> u64 {
    let a = x ^ (x << 13);
    let b = a ^ (a >> 7);
    b ^ (b << 17)
}

/// The generator's state after `n` steps from a seed.
pub open spec fn rng_state(seed: u64, n: nat) -> u64
    decreases n,
{
    if n == 0 {
        seed
    } else {
        next_random(rng_state(seed, (n - 1) as nat))
    }
}

/// A random value with its lowest eleven bits replaced by a tag.
pub open spec fn tagged(random: u64, tag: u64) -> u64 {
    (random & !0x7ffu64) | tag
}

/// The `i`-th key drawn from a seed: the generator's next value, tagged with `i + 1`, so
/// that no key is zero and no two keys of one table are equal.
pub open spec fn key_at(seed: u64, i: nat) -> u64 {
    tagged(rng_state(seed, i + 1), (i + 1) as u64)
}

/// The table drawn from a seed: the piece keys first, then the side key, then the castling
/// keys.
pub open spec fn table_of(seed: u64) -> KeyTable {
    KeyTable {
        piece: Seq::new(PIECE_KEY_NUM as nat, |i: int| key_at(seed, i as nat)),
        side: key_at(seed, PIECE_KEY_NUM as nat),
        castle: Seq::new(
            CASTLE_KEY_NUM as nat,
            |j: int| key_at(seed, (PIECE_KEY_NUM + 1 + j) as nat),
        ),
    }
}

proof fn lemma_tag_kept(random: u64, tag: u64)
    by (bit_vector)
    requires
        tag < 2048,
    ensures
        ((random & !0x7ffu64) | tag) & 0x7ffu64 == tag,
{
}

proof fn lemma_key_tag(seed: u64, i: nat)
    requires
        i < 2047,
    ensures
        key_at(seed, i) & 0x7ffu64 == i + 1,
        key_at(seed, i) != 0,
{
    lemma_tag_kept(rng_state(seed, i + 1), (i + 1) as u64);
    assert(0u64 & 0x7ffu64 == 0) by (bit_vector);
}

/// Whatever the seed, the table drawn from it is well formed.
pub proof fn lemma_table_of_wf(seed: u64)
    ensures
        table_of(seed).wf(),
{
    let t = table_of(seed);
    assert forall|i: int| 0 <= i < PIECE_KEY_NUM implies #[trigger] t.piece[i] != 0 by {
        lemma_key_tag(seed, i as nat);
    }
    assert forall|i: int, j: int| 0 <= i < j < PIECE_KEY_NUM implies #[trigger] t.piece[i]
        != #[trigger] t.piece[j] by {
        lemma_key_tag(seed, i as nat);
        lemma_key_tag(seed, j as nat);
    }
    assert forall|i: int, j: int| 0 <= i < j < CASTLE_KEY_NUM implies #[trigger] t.castle[i]
        != #[trigger] t.castle[j] by {
        lemma_key_tag(seed, (PIECE_KEY_NUM + 1 + i) as nat);
        lemma_key_tag(seed, (PIECE_KEY_NUM + 1 + j) as nat);
    }
    lemma_key_tag(seed, PIECE_KEY_NUM as nat);
}

/// XOR may be regrouped, and a value combined twice is gone.
pub proof fn lemma_xor_laws(a: u64, b: u64, c: u64)
    by (bit_vector)
    ensures
        a ^ b == b ^ a,
        (a ^ b) ^ c == a ^ (b ^ c),
        (a ^ b) ^ c == (a ^ c) ^ b,
        (a ^ b) ^ b == a,
        a ^ a == 0,
        a ^ 0 == a,
        0 ^ a == a,
        a ^ b == 0 <==> a == b,
{
}

/// Replacing the piece on one square changes the hash of the placement by the key of the
/// piece that left and the key of the piece that came.
pub proof fn lemma_placement_hash_update(
    t: KeyTable,
    placement: Seq<PieceType>,
    sq: int,
    p: PieceType,
    n: int,
)
    requires
        0 <= sq < placement.len(),
        0 <= n <= placement.len(),
    ensures
        sq < n ==> t.placement_hash(placement.update(sq, p), n) == t.placement_hash(placement, n)
            ^ t.piece_key(placement[sq], sq) ^ t.piece_key(p, sq),
        sq >= n ==> t.placement_hash(placement.update(sq, p), n) == t.placement_hash(
            placement,
            n,
        ),
    decreases n,
{
    if n > 0 {
        lemma_placement_hash_update(t, placement, sq, p, n - 1);
        let h = t.placement_hash(placement, n - 1);
        let old_key = t.piece_key(placement[sq], sq);
        let new_key = t.piece_key(p, sq);
        let last = t.piece_key(placement[n - 1], n - 1);
        if sq == n - 1 {
            lemma_xor_laws(h, old_key, new_key);
        } else if sq < n - 1 {
            assert(((h ^ old_key) ^ new_key) ^ last == ((h ^ last) ^ old_key) ^ new_key)
                by (bit_vector);
        }
    }
}

/// The keys of the position hash, drawn once from a seed.
pub struct ZobristKeys {
    piece: Vec<u64>,
    side: u64,
    castle: Vec<u64>,
}

impl View for ZobristKeys {
    type V = KeyTable;

    closed spec fn view(&self) -> KeyTable {
        KeyTable { piece: self.piece@, side: self.side, castle: self.castle@ }
    }
}

/// A copy of a vector of plain values.
pub fn copy_vec<T: Copy>(v: &Vec<T>) -> (copy: Vec<T>)
    ensures
        copy@ == v@,
{
    let mut copy: Vec<T> = Vec::new();
    let mut i: usize = 0;
    while i < v.len()
        invariant
            i <= v.len(),
            copy@ == v@.take(i as int),
        decreases v.len() - i,
    {
        copy.push(v[i]);
        assert(copy@ =~= v@.take(i + 1));
        i += 1;
    }
    assert(v@.take(v@.len() as int) =~= v@);
    copy
}

fn next_key(state: u64, index: usize) -> (r: (u64, u64))
    requires
        index < 2047,
    ensures
        r.0 == next_random(state),
        r.1 == tagged(r.0, (index + 1) as u64),
{
    let a: u64 = state ^ (state << 13);
    let b: u64 = a ^ (a >> 7);
    let x: u64 = b ^ (b << 17);
    (x, (x & !0x7ffu64) | ((index + 1) as u64))
}

impl ZobristKeys {
    /// The table is well formed.
    pub open spec fn wf(&self) -> bool {
        self@.wf()
    }

    /// Draws the keys from a seed; the same seed gives the same keys.
    pub fn new(seed: u64) -> (keys: ZobristKeys)
        ensures
            keys@ == table_of(seed),
            keys.wf(),
    {
        let mut state: u64 = seed;
        let mut piece: Vec<u64> = Vec::new();
        let mut i: usize = 0;
        while i < PIECE_KEY_NUM
            invariant
                i <= PIECE_KEY_NUM,
                state == rng_state(seed, i as nat),
                piece@.len() == i,
                forall|j: int| 0 <= j < i ==> #[trigger] piece@[j] == key_at(seed, j as nat),
            decreases PIECE_KEY_NUM - i,
        {
            let (next, key) = next_key(state, i);
            state = next;
            piece.push(key);
            i += 1;
        }
        let (next, side) = next_key(state, i);
        state = next;
        i += 1;
        let mut castle: Vec<u64> = Vec::new();
        let mut j: usize = 0;
        while j < CASTLE_KEY_NUM
            invariant
                j <= CASTLE_KEY_NUM,
                i == PIECE_KEY_NUM + 1 + j,
                state == rng_state(seed, i as nat),
                castle@.len() == j,
                forall|k: int|
                    0 <= k < j ==> #[trigger] castle@[k] == key_at(
                        seed,
                        (PIECE_KEY_NUM + 1 + k) as nat,
                    ),
            decreases CASTLE_KEY_NUM - j,
        {
            let (next, key) = next_key(state, i);
            state = next;
            castle.push(key);
            i += 1;
            j += 1;
        }
        let keys = ZobristKeys { piece, side, castle };
        proof {
            lemma_table_of_wf(seed);
            assert(keys@.piece =~= table_of(seed).piece);
            assert(keys@.castle =~= table_of(seed).castle);
        }
        keys
    }

    /// A copy of the keys.
    pub fn duplicate(&self) -> (keys: ZobristKeys)
        ensures
            keys@ == self@,
    {
        let keys = ZobristKeys {
            piece: copy_vec(&self.piece),
            side: self.side,
            castle: copy_vec(&self.castle),
        };
        keys
    }

    /// The key of a piece on a square of the padded board.
    pub fn piece_key(&self, p: PieceType, sq: u8) -> (key: u64)
        requires
            self.wf(),
            sq < 120,
        ensures
            key == self@.piece_key(p, sq as int),
    {
        if p.is_piece() {
            self.piece[p.code() as usize * 120 + sq as usize]
        } else {
            0
        }
    }

    /// The key of an en-passant target.
    pub fn en_passant_key(&self, ep: u8) -> (key: u64)
        requires
            self.wf(),
        ensures
            key == self@.en_passant_key(ep),
    {
        if ep < 120 && ep != NO_SQUARE {
            self.piece[ep as usize]
        } else {
            0
        }
    }

    /// The key of the side to move.
    pub fn side_key(&self, side: Colours) -> (key: u64)
        ensures
            key == self@.side_key(side),
    {
        if side == Colours::Black {
            self.side
        } else {
            0
        }
    }

    /// The key of a value of the castling rights.
    pub fn castle_key(&self, rights: u8) -> (key: u64)
        requires
            self.wf(),
            rights < 16,
        ensures
            key == self@.castle[rights as int],
    {
        self.castle[rights as usize]
    }
}

/// Two different things on one square have different keys: two different pieces, or a
/// piece and nothing.
pub proof fn lemma_piece_keys_differ(t: KeyTable, p: PieceType, q: PieceType, sq: int)
    requires
        t.wf(),
        0 <= sq < 120,
        p != q,
        p != PieceType::OffBoard,
        q != PieceType::OffBoard,
    ensures
        t.piece_key(p, sq) != t.piece_key(q, sq),
{
    let i = p.spec_code() * 120 + sq;
    let j = q.spec_code() * 120 + sq;
    if p.spec_is_piece() && q.spec_is_piece() {
        if i < j {
            assert(t.piece[i] != t.piece[j]);
        } else {
            assert(t.piece[j] != t.piece[i]);
        }
    } else if p.spec_is_piece() {
        assert(t.piece[i] != 0);
    } else {
        assert(t.piece[j] != 0);
    }
}

/// The position with the other side to move has another key.
pub proof fn lemma_hash_tells_side(t: KeyTable, placement: Seq<PieceType>, rights: u8, ep: u8)
    requires
        t.wf(),
    ensures
        t.position_hash(placement, Colours::White, rights, ep) != t.position_hash(
            placement,
            Colours::Black,
            rights,
            ep,
        ),
{
    let h = t.placement_hash(placement, 120);
    let s = t.side;
    let c = t.castle[rights as int];
    let e = t.en_passant_key(ep);
    assert(((h ^ 0) ^ c) ^ e != ((h ^ s) ^ c) ^ e) by (bit_vector)
        requires
            s != 0,
    ;
}

/// The position with other castling rights has another key.
pub proof fn lemma_hash_tells_rights(
    t: KeyTable,
    placement: Seq<PieceType>,
    side: Colours,
    rights: u8,
    other: u8,
    ep: u8,
)
    requires
        t.wf(),
        rights < 16,
        other < 16,
        rights != other,
    ensures
        t.position_hash(placement, side, rights, ep) != t.position_hash(
            placement,
            side,
            other,
            ep,
        ),
{
    let h = t.placement_hash(placement, 120);
    let s = t.side_key(side);
    let a = t.castle[rights as int];
    let b = t.castle[other as int];
    let e = t.en_passant_key(ep);
    if rights < other {
        assert(t.castle[rights as int] != t.castle[other as int]);
    } else {
        assert(t.castle[other as int] != t.castle[rights as int]);
    }
    assert(((h ^ s) ^ a) ^ e != ((h ^ s) ^ b) ^ e) by (bit_vector)
        requires
            a != b,
    ;
}

/// The position with another en-passant target, or with one where there was none, has
/// another key.
pub proof fn lemma_hash_tells_en_passant(
    t: KeyTable,
    placement: Seq<PieceType>,
    side: Colours,
    rights: u8,
    ep: u8,
    other: u8,
)
    requires
        t.wf(),
        ep == NO_SQUARE || ep < 120,
        other == NO_SQUARE || other < 120,
        ep != other,
    ensures
        t.position_hash(placement, side, rights, ep) != t.position_hash(
            placement,
            side,
            rights,
            other,
        ),
{
    let h = t.placement_hash(placement, 120);
    let s = t.side_key(side);
    let c = t.castle[rights as int];
    let a = t.en_passant_key(ep);
    let b = t.en_passant_key(other);
    if ep == NO_SQUARE {
        assert(t.piece[other as int] != 0);
    } else if other == NO_SQUARE {
        assert(t.piece[ep as int] != 0);
    } else if ep < other {
        assert(t.piece[ep as int] != t.piece[other as int]);
    } else {
        assert(t.piece[other as int] != t.piece[ep as int]);
    }
    assert(((h ^ s) ^ c) ^ a != ((h ^ s) ^ c) ^ b) by (bit_vector)
        requires
            a != b,
    ;
}

/// The position with one square changed has another key: with another piece on it, with a
/// piece where there was none, or with none where there was one.
pub proof fn lemma_hash_tells_piece(
    t: KeyTable,
    placement: Seq<PieceType>,
    side: Colours,
    rights: u8,
    ep: u8,
    sq: int,
    p: PieceType,
)
    requires
        t.wf(),
        placement.len() == 120,
        0 <= sq < 120,
        placement[sq] != PieceType::OffBoard,
        p != PieceType::OffBoard,
        p != placement[sq],
    ensures
        t.position_hash(placement.update(sq, p), side, rights, ep) != t.position_hash(
            placement,
            side,
            rights,
            ep,
        ),
{
    let h = t.placement_hash(placement, 120);
    let s = t.side_key(side);
    let c = t.castle[rights as int];
    let e = t.en_passant_key(ep);
    let gone = t.piece_key(placement[sq], sq);
    let come = t.piece_key(p, sq);
    lemma_placement_hash_update(t, placement, sq, p, 120);
    lemma_piece_keys_differ(t, placement[sq], p, sq);
    assert(((((h ^ gone) ^ come) ^ s) ^ c) ^ e != ((h ^ s) ^ c) ^ e) by (bit_vector)
        requires
            gone != come,
    ;
}

} // verus!
