//! Coordinates: tiles on the plane, and the square chunks that hold them.
//!
//! A chunk is `CHUNK_SIZE` tiles wide and high. The chunk of a tile is found
//! by dividing each coordinate by `CHUNK_SIZE` and rounding toward negative
//! infinity, so that the chunks tile the plane without a seam at zero.

use itertools::Itertools;
use vstd::prelude::*;

verus! {

/// Base-2 logarithm of `CHUNK_SIZE`.
pub const CHUNK_SIZE_LOG_2: usize = 6;

/// Width and height of a chunk, in tiles.
pub const CHUNK_SIZE: usize = 64;

/// Number of tiles in a chunk.
pub const CHUNK_AREA: usize = 4096;

/// Global coordinates of a chunk.
#[derive(Debug, Copy, Clone, PartialEq, Eq, Hash, Structural)]
pub struct ChunkPos(pub i32, pub i32);

impl Default for ChunkPos {
    fn default() -> (pos: ChunkPos)
        ensures
            pos == ChunkPos(0, 0),
    {
        ChunkPos(0, 0)
    }
}

/// Tile coordinates.
#[derive(Debug, Copy, Clone, PartialEq, Eq, Hash, Structural)]
pub struct TilePos(pub i32, pub i32);

impl Default for TilePos {
    fn default() -> (pos: TilePos)
        ensures
            pos == TilePos(0, 0),
    {
        TilePos(0, 0)
    }
}

/// The position of the tile at `index` in the chunk at `chunk`.
pub open spec fn tile_of_index(chunk: ChunkPos, index: int) -> TilePos {
    TilePos((chunk.0 * 64 + index % 64) as i32, (chunk.1 * 64 + index / 64) as i32)
}

/// Whether the chunk at `chunk` is the chunk of some tile.
pub open spec fn chunk_on_plane(chunk: ChunkPos) -> bool {
    -0x200_0000 <= chunk.0 < 0x200_0000 && -0x200_0000 <= chunk.1 < 0x200_0000
}

/// The pairs `(a, b)` with `a` in `a_lo..=a_hi` and `b` in `b_lo..=b_hi`,
/// the first component changing slowest.
pub open spec fn range_pairs(a_lo: i8, a_hi: i8, b_lo: i8, b_hi: i8) -> Seq<(i8, i8)> {
    let rows = range_len(a_lo, a_hi);
    let cols = range_len(b_lo, b_hi);
    Seq::new((rows * cols) as nat, |k: int| ((a_lo + k / cols) as i8, (b_lo + k % cols) as i8))
}

/// The number of items in `lo..=hi`.
pub open spec fn range_len(lo: i8, hi: i8) -> int {
    if lo <= hi {
        hi - lo + 1
    } else {
        0
    }
}

/// `Itertools::cartesian_product` of two inclusive ranges, collected.
///
/// Trusted: the adaptor yields every pair of an item of the first range with
/// an item of the second, walking the second range once for each item of the
/// first, in order.
#[verifier::external_body]
fn cartesian_product(a_lo: i8, a_hi: i8, b_lo: i8, b_hi: i8) -> (pairs: Vec<(i8, i8)>)
    ensures
        pairs@ == range_pairs(a_lo, a_hi, b_lo, b_hi),
{
    (a_lo..=a_hi).cartesian_product(b_lo..=b_hi).collect()
}

impl TilePos {
    /// The position of the chunk containing the tile position: each
    /// coordinate divided by `CHUNK_SIZE`, rounded down.
    pub open spec fn spec_chunk(self) -> ChunkPos {
        ChunkPos((self.0 as int / 64) as i32, (self.1 as int / 64) as i32)
    }

    /// Whether `other` is one of the eight tiles around this one.
    pub open spec fn touches(self, other: TilePos) -> bool {
        &&& other != self
        &&& -1 <= other.0 - self.0 <= 1
        &&& -1 <= other.1 - self.1 <= 1
    }

    /// Whether this position comes before `other` when positions are read
    /// column by column: by the first coordinate, then by the second.
    pub open spec fn precedes(self, other: TilePos) -> bool {
        self.0 < other.0 || (self.0 == other.0 && self.1 < other.1)
    }

    /// Returns the position of the chunk containing the tile position.
    #[verifier::when_used_as_spec(spec_chunk)]
    pub fn chunk(self) -> (chunk: ChunkPos)
        ensures
            chunk == self.spec_chunk(),
    {
        let TilePos(x, y) = self;
        assert(x >> 6usize == x as int / 64) by (bit_vector);
        assert(y >> 6usize == y as int / 64) by (bit_vector);
        ChunkPos(x >> CHUNK_SIZE_LOG_2, y >> CHUNK_SIZE_LOG_2)
    }

    /// Returns the neighboring positions: the tiles around this one that
    /// have coordinates, at most eight, column by column.
    pub fn neighbors(self) -> (around: Vec<TilePos>)
        ensures
            forall|q: TilePos| around@.contains(q) <==> self.touches(q),
            forall|i: int, j: int|
                0 <= i < j < around.len() ==> (#[trigger] around[i]).precedes(#[trigger] around[j]),
            around.len() <= 8,
    {
        let offsets = cartesian_product(-1, 1, -1, 1);
        let mut around: Vec<TilePos> = Vec::new();
        let mut k: usize = 0;
        proof {
            let side = range_len(-1i8, 1i8);
            assert(side * side == 9) by (nonlinear_arith)
                requires
                    side == 3,
            ;
        }
        while k < offsets.len()
            invariant
                offsets@ == range_pairs(-1i8, 1i8, -1i8, 1i8),
                offsets.len() == 9,
                0 <= k <= 9,
                around.len() <= k,
                k > 4 ==> around.len() < k,
                forall|i: int| 0 <= i < around.len() ==> self.touches(#[trigger] around[i]),
                forall|i: int|
                    0 <= i < around.len() ==> (#[trigger] around[i].0 - self.0 + 1) * 3 + (
                    around[i].1 - self.1 + 1) < k,
                forall|q: TilePos|
                    self.touches(q) && (q.0 - self.0 + 1) * 3 + (q.1 - self.1 + 1) < k
                        ==> around@.contains(q),
                forall|i: int, j: int|
                    0 <= i < j < around.len() ==> (#[trigger] around[i]).precedes(
                        #[trigger] around[j],
                    ),
            decreases 9 - k,
        {
            let (dx, dy) = offsets[k];
            assert(dx == -1 + k as int / 3 && dy == -1 + k as int % 3);
            if dx != 0 || dy != 0 {
                let x = self.0.checked_add(dx as i32);
                let y = self.1.checked_add(dy as i32);
                if let (Some(x), Some(y)) = (x, y) {
                    let ghost before = around@;
                    around.push(TilePos(x, y));
                    assert forall|q: TilePos|
                        self.touches(q) && (q.0 - self.0 + 1) * 3 + (q.1 - self.1 + 1) < k + 1
                        implies around@.contains(q) by {
                        if (q.0 - self.0 + 1) * 3 + (q.1 - self.1 + 1) < k {
                            let i = choose|i: int| 0 <= i < before.len() && before[i] == q;
                            assert(around@[i] == q);
                        } else {
                            assert(q == TilePos(x, y));
                            assert(around@[around.len() - 1] == q);
                        }
                    }
                }
            }
            proof {
                assert forall|q: TilePos|
                    self.touches(q) && (q.0 - self.0 + 1) * 3 + (q.1 - self.1 + 1) < k + 1
                    implies around@.contains(q) by {
                    if (q.0 - self.0 + 1) * 3 + (q.1 - self.1 + 1) == k {
                        assert(q.0 - self.0 == dx && q.1 - self.1 == dy);
                    }
                }
            }
            k += 1;
        }
        proof {
            assert forall|q: TilePos| around@.contains(q) implies self.touches(q) by {
                let i = choose|i: int| 0 <= i < around.len() && around[i] == q;
                assert(self.touches(around[i]));
            }
        }
        around
    }
}

} // verus!
