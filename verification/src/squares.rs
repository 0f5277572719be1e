use vstd::prelude::*;
use crate::defines::{on_board, FileRankToSquare, file_rank_to_square, OFF_BOARD, OFF_DENSE};

verus! {

/// The padded index of a playable square given by its dense index, 0 for a1 and 63 for h8.
pub open spec fn dense_to_padded(dense: int) -> int {
    file_rank_to_square(dense % 8, dense / 8)
}

/// The dense index of a padded index, `OFF_DENSE` where the padded index is not playable.
pub open spec fn padded_to_dense(padded: int) -> int {
    if on_board(padded) {
        (padded / 10 - 2) * 8 + (padded % 10 - 1)
    } else {
        OFF_DENSE as int
    }
}

/// The two addressing schemes are inverse to each other on the playable squares, and every
/// other padded index has the sentinel for its dense index.
pub proof fn lemma_square_map_bijection(dense: int, padded: int)
    ensures
        0 <= dense < 64 ==> on_board(dense_to_padded(dense)) && padded_to_dense(
            dense_to_padded(dense),
        ) == dense,
        on_board(padded) ==> 0 <= padded_to_dense(padded) < 64 && dense_to_padded(
            padded_to_dense(padded),
        ) == padded,
        !on_board(padded) ==> padded_to_dense(padded) == OFF_DENSE,
{
}

/// Both conversion tables, filled once and read ever after.
pub struct SquareMap {
    to_padded: Vec<u8>,
    to_dense: Vec<u8>,
}

impl SquareMap {
    /// Each table holds, at every index, what the conversion gives there.
    pub closed spec fn wf(&self) -> bool {
        &&& self.to_padded@.len() == 64
        &&& self.to_dense@.len() == 120
        &&& forall|d: int| 0 <= d < 64 ==> #[trigger] self.to_padded@[d] == dense_to_padded(d)
        &&& forall|p: int| 0 <= p < 120 ==> #[trigger] self.to_dense@[p] == padded_to_dense(p)
    }

    /// Fills the table from dense to padded rank by rank and file by file, then derives the
    /// other one from it.
    pub fn new() -> (map: SquareMap)
        ensures
            map.wf(),
    {
        let mut to_padded: Vec<u8> = Vec::new();
        let mut rank: u8 = 0;
        while rank < 8
            invariant
                rank <= 8,
                to_padded@.len() == rank * 8,
                forall|d: int| 0 <= d < rank * 8 ==> #[trigger] to_padded@[d] == dense_to_padded(d),
            decreases 8 - rank,
        {
            let mut file: u8 = 0;
            while file < 8
                invariant
                    rank < 8,
                    file <= 8,
                    to_padded@.len() == rank * 8 + file,
                    forall|d: int|
                        0 <= d < rank * 8 + file ==> #[trigger] to_padded@[d] == dense_to_padded(d),
                decreases 8 - file,
            {
                to_padded.push(FileRankToSquare(file, rank));
                file += 1;
            }
            rank += 1;
        }
        let mut to_dense: Vec<u8> = Vec::new();
        let mut p: usize = 0;
        while p < 120
            invariant
                p <= 120,
                to_dense@.len() == p,
                forall|q: int| 0 <= q < p ==> #[trigger] to_dense@[q] == OFF_DENSE,
            decreases 120 - p,
        {
            to_dense.push(OFF_DENSE);
            p += 1;
        }
        let mut dense: u8 = 0;
        while dense < 64
            invariant
                dense <= 64,
                to_padded@.len() == 64,
                to_dense@.len() == 120,
                forall|d: int| 0 <= d < 64 ==> #[trigger] to_padded@[d] == dense_to_padded(d),
                forall|q: int|
                    0 <= q < 120 ==> #[trigger] to_dense@[q] == (if padded_to_dense(q) < dense {
                        padded_to_dense(q)
                    } else {
                        OFF_DENSE as int
                    }),
            decreases 64 - dense,
        {
            let padded: u8 = to_padded[dense as usize];
            to_dense.set(padded as usize, dense);
            dense += 1;
        }
        SquareMap { to_padded, to_dense }
    }

    /// The padded index of a dense index; `OFF_BOARD` for a number that is no dense index.
    pub fn to_padded(&self, dense: u8) -> (padded: u8)
        requires
            self.wf(),
        ensures
            dense < 64 ==> padded == dense_to_padded(dense as int),
            dense >= 64 ==> padded == OFF_BOARD,
    {
        if dense < 64 {
            self.to_padded[dense as usize]
        } else {
            OFF_BOARD
        }
    }

    /// The dense index of a padded index; `OFF_DENSE` for every index outside the playable
    /// area.
    pub fn to_dense(&self, padded: u8) -> (dense: u8)
        requires
            self.wf(),
        ensures
            dense == padded_to_dense(padded as int),
    {
        if padded < 120 {
            self.to_dense[padded as usize]
        } else {
            OFF_DENSE
        }
    }
}

} // verus!
