//! The plane: chunks of tiles, created when first written to.

use crate::chunk::{Chunk, ChunkView};
use crate::pos::{chunk_on_plane, tile_of_index, ChunkPos, TilePos, CHUNK_AREA};
use crate::tile::Tile;
use std::collections::HashMap;
use vstd::prelude::*;
use vstd::std_specs::hash::*;
use vstd::std_specs::iter::IteratorSpec;

verus! {

broadcast use vstd::std_specs::hash::group_hash_axioms;

/// The number under which the chunk at `pos` is kept: the two coordinates,
/// each moved into `0..2^32`, side by side. Every chunk position has a
/// number of its own, and every `u64` is the number of one.
pub open spec fn spec_chunk_key(pos: ChunkPos) -> u64 {
    ((pos.0 - i32::MIN) * 0x1_0000_0000 + (pos.1 - i32::MIN)) as u64
}

/// Returns the number under which the chunk at `pos` is kept.
pub fn chunk_key(pos: ChunkPos) -> (key: u64)
    ensures
        key == spec_chunk_key(pos),
{
    let high: u64 = (pos.0 as i64 + 0x8000_0000) as u64;
    let low: u64 = (pos.1 as i64 + 0x8000_0000) as u64;
    high * 0x1_0000_0000 + low
}

/// The chunk position that is kept under the number `key`.
pub open spec fn spec_chunk_of_key(key: u64) -> ChunkPos {
    ChunkPos(
        (key / 0x1_0000_0000 + i32::MIN) as i32,
        (key % 0x1_0000_0000 + i32::MIN) as i32,
    )
}

/// Returns the chunk position that is kept under the number `key`.
pub fn chunk_of_key(key: u64) -> (pos: ChunkPos)
    ensures
        pos == spec_chunk_of_key(key),
        spec_chunk_key(pos) == key,
{
    let high: i64 = (key / 0x1_0000_0000) as i64 - 0x8000_0000;
    let low: i64 = (key % 0x1_0000_0000) as i64 - 0x8000_0000;
    ChunkPos(high as i32, low as i32)
}

/// Two chunk positions with one number are the same position.
pub proof fn lemma_chunk_key_injective(a: ChunkPos, b: ChunkPos)
    requires
        spec_chunk_key(a) == spec_chunk_key(b),
    ensures
        a == b,
{
}

/// Unbounded grid of tiles, kept as the chunks that have been written to.
#[derive(Debug, Clone)]
pub struct Grid {
    chunks: HashMap<u64, Chunk>,
}

impl View for Grid {
    type V = Map<ChunkPos, ChunkView>;

    /// The chunks that exist, by position.
    closed spec fn view(&self) -> Map<ChunkPos, ChunkView> {
        Map::new(
            |pos: ChunkPos| self.chunks@.contains_key(spec_chunk_key(pos)),
            |pos: ChunkPos| self.chunks@[spec_chunk_key(pos)]@,
        )
    }
}

/// What the chunk at `pos` holds in `chunks`, a chunk that does not exist
/// holding what a fresh one holds.
pub open spec fn chunk_in(chunks: Map<ChunkPos, ChunkView>, pos: ChunkPos) -> ChunkView {
    if chunks.contains_key(pos) {
        chunks[pos]
    } else {
        ChunkView::fresh()
    }
}

/// The tile at `pos` in `chunks`.
pub open spec fn tile_in(chunks: Map<ChunkPos, ChunkView>, pos: TilePos) -> Tile {
    chunk_in(chunks, pos.spec_chunk()).tiles[Chunk::spec_index_of_tile(pos)]
}

/// Whether mines have been placed in the chunk at `pos` in `chunks`.
pub open spec fn placed_in(chunks: Map<ChunkPos, ChunkView>, pos: ChunkPos) -> bool {
    chunks.contains_key(pos) && chunks[pos].all_mines_placed
}

/// Whether no tile is undecided in a chunk of `chunks` whose mines have been
/// placed.
pub open spec fn decided_in(chunks: Map<ChunkPos, ChunkView>) -> bool {
    forall|pos: TilePos|
        placed_in(chunks, pos.spec_chunk()) ==> !(#[trigger] tile_in(chunks, pos)).undecided()
}

/// Whether `after` comes from `before` by placing mines and nothing else:
/// chunks stay, placed chunks stay placed, a chunk that is new has its mines
/// placed, every tile is the old one or the old one decided, and tiles
/// change only in chunks whose mines are newly placed.
pub open spec fn mines_placed_between(
    before: Map<ChunkPos, ChunkView>,
    after: Map<ChunkPos, ChunkView>,
) -> bool {
    &&& forall|chunk: ChunkPos|
        before.contains_key(chunk) ==> #[trigger] after.contains_key(chunk)
    &&& forall|chunk: ChunkPos|
        #[trigger] after.contains_key(chunk) ==> before.contains_key(chunk) || placed_in(
            after,
            chunk,
        )
    &&& forall|chunk: ChunkPos| placed_in(before, chunk) ==> #[trigger] placed_in(after, chunk)
    &&& forall|pos: TilePos|
        tile_in(before, pos).kept_or_mine_placed(#[trigger] tile_in(after, pos))
    &&& forall|pos: TilePos|
        placed_in(after, pos.spec_chunk()) == placed_in(before, pos.spec_chunk())
            ==> #[trigger] tile_in(after, pos) == tile_in(before, pos)
}

impl Grid {
    /// Whether no tile is undecided in a chunk whose mines have been placed.
    /// Revealing relies on it; of the operations here only `set_tile` can
    /// break it, by writing an undecided tile into such a chunk.
    pub open spec fn wf(&self) -> bool {
        decided_in(self@)
    }

    /// Every chunk of the grid holds `CHUNK_AREA` tiles.
    pub proof fn lemma_chunk_len(&self, pos: ChunkPos)
        ensures
            chunk_in(self@, pos).tiles.len() == CHUNK_AREA,
    {
        if self@.contains_key(pos) {
            self.chunks@[spec_chunk_key(pos)].lemma_len();
        }
    }

    /// Returns a new empty grid.
    pub fn new() -> (grid: Grid)
        ensures
            grid@ == Map::<ChunkPos, ChunkView>::empty(),
    {
        let grid = Grid { chunks: HashMap::new() };
        assert(grid@ =~= Map::<ChunkPos, ChunkView>::empty());
        grid
    }

    /// Returns the positions of the chunks that exist, each once, in no
    /// particular order.
    pub fn chunk_positions(&self) -> (positions: Vec<ChunkPos>)
        ensures
            positions@.no_duplicates(),
            positions@.to_set() == self@.dom(),
    {
        let mut positions: Vec<ChunkPos> = Vec::new();
        for key in it: self.chunks.keys()
            invariant
                positions.len() == it.index(),
                forall|i: int|
                    0 <= i < positions.len() ==> spec_chunk_key(#[trigger] positions[i])
                        == *it.seq()[i],
        {
            positions.push(chunk_of_key(*key));
        }
        proof {
            let keys = self.chunks.keys().remaining();
            assert forall|i: int, j: int|
                0 <= i < positions.len() && 0 <= j < positions.len() && i != j implies positions[i]
                != positions[j] by {
                assert(keys[i] != keys[j]);
            }
            assert forall|pos: ChunkPos| positions@.to_set().contains(pos) <==> self@.dom().contains(
                pos,
            ) by {
                if positions@.contains(pos) {
                    let i = choose|i: int| 0 <= i < positions.len() && positions[i] == pos;
                    assert(keys.unref().to_set().contains(*keys[i])) by {
                        assert(keys.unref()[i] == *keys[i]);
                    }
                }
                if self@.dom().contains(pos) {
                    let key = spec_chunk_key(pos);
                    assert(keys.unref().to_set().contains(key));
                    let i = choose|i: int| 0 <= i < keys.unref().len() && keys.unref()[i] == key;
                    assert(spec_chunk_key(positions[i]) == key);
                    lemma_chunk_key_injective(positions[i], pos);
                    assert(positions@[i] == pos);
                }
            }
            assert(positions@.to_set() =~= self@.dom());
        }
        positions
    }

    /// Returns whether no tile is undecided in a chunk whose mines have been
    /// placed: whether the grid is fit for revealing.
    pub fn is_wf(&self) -> (fit: bool)
        ensures
            fit == self.wf(),
    {
        let positions = self.chunk_positions();
        let mut k: usize = 0;
        while k < positions.len()
            invariant
                0 <= k <= positions.len(),
                positions@.to_set() == self@.dom(),
                forall|i: int|
                    0 <= i < k && chunk_on_plane(#[trigger] positions[i]) && placed_in(
                        self@,
                        positions[i],
                    ) ==> self@[positions[i]].all_decided(),
            decreases positions.len() - k,
        {
            let pos = positions[k];
            assert(positions@.to_set().contains(pos));
            if -0x200_0000 <= pos.0 && pos.0 < 0x200_0000 && -0x200_0000 <= pos.1 && pos.1
                < 0x200_0000 {
                match self.get_chunk(pos) {
                    Some(chunk) => {
                        if chunk.all_mines_placed() && !chunk.all_decided() {
                            proof {
                                chunk.lemma_len();
                                let i = choose|i: int|
                                    0 <= i < chunk@.tiles.len() && (
                                    #[trigger] chunk@.tiles[i]).undecided();
                                let at = tile_of_index(pos, i);
                                assert(at.spec_chunk() == pos);
                                assert(Chunk::spec_index_of_tile(at) == i);
                                assert(tile_in(self@, at).undecided());
                            }
                            return false;
                        }
                    },
                    None => {},
                }
            }
            k += 1;
        }
        proof {
            assert forall|at: TilePos| placed_in(self@, at.spec_chunk()) implies !(
            #[trigger] tile_in(self@, at)).undecided() by {
                let pos = at.spec_chunk();
                assert(positions@.to_set().contains(pos));
                let i = choose|i: int| 0 <= i < positions.len() && positions[i] == pos;
                assert(chunk_on_plane(positions[i]));
                assert(self@[positions[i]].all_decided());
                Chunk::lemma_index_in_range(at);
                self.lemma_chunk_len(pos);
            }
        }
        true
    }

    /// Returns a chunk of the grid, or `None` if the chunk is missing.
    pub fn get_chunk(&self, pos: ChunkPos) -> (chunk: Option<&Chunk>)
        ensures
            match chunk {
                Some(chunk) => self@.contains_key(pos) && chunk@ == self@[pos],
                None => !self@.contains_key(pos),
            },
    {
        let key = chunk_key(pos);
        self.chunks.get(&key)
    }

    /// Returns a chunk of the grid mutably, filling it with a default if it is
    /// missing.
    pub fn get_chunk_mut(&mut self, pos: ChunkPos) -> (chunk: &mut Chunk)
        ensures
            chunk@ == chunk_in(old(self)@, pos),
            final(self)@ == old(self)@.insert(pos, final(chunk)@),
    {
        let key = chunk_key(pos);
        proof {
            assert forall|other: ChunkPos| other != pos implies spec_chunk_key(other) != key by {
                if spec_chunk_key(other) == key {
                    lemma_chunk_key_injective(other, pos);
                }
            }
        }
        self.chunks.entry(key).or_insert(Chunk::default())
    }

    /// Returns a tile in the grid.
    pub fn get_tile(&self, pos: TilePos) -> (tile: Tile)
        ensures
            tile == tile_in(self@, pos),
            tile.valid(),
    {
        match self.get_chunk(pos.chunk()) {
            Some(chunk) => chunk.get_tile(pos),
            None => {
                proof {
                    Chunk::lemma_index_in_range(pos);
                }
                Tile::default()
            },
        }
    }

    /// Sets a tile in the grid, creating its chunk if it is missing.
    pub fn set_tile(&mut self, pos: TilePos, tile: Tile)
        requires
            tile.valid(),
        ensures
            final(self)@ == old(self)@.insert(
                pos.spec_chunk(),
                chunk_in(old(self)@, pos.spec_chunk()).with_tile(
                    Chunk::spec_index_of_tile(pos),
                    tile,
                ),
            ),
            tile_in(final(self)@, pos) == tile,
            forall|other: TilePos|
                other != pos ==> #[trigger] tile_in(final(self)@, other) == tile_in(
                    old(self)@,
                    other,
                ),
            forall|chunk: ChunkPos|
                #[trigger] placed_in(final(self)@, chunk) == placed_in(old(self)@, chunk),
    {
        proof {
            old(self).lemma_chunk_len(pos.spec_chunk());
            Chunk::lemma_index_in_range(pos);
            assert forall|other: TilePos|
                other != pos && other.spec_chunk() == pos.spec_chunk() implies Chunk::spec_index_of_tile(
                other,
            ) != Chunk::spec_index_of_tile(pos) by {
                Chunk::lemma_index_distinct_in_chunk(other, pos);
            }
        }
        self.get_chunk_mut(pos.chunk()).set_tile(pos, tile);
    }

    /// Places mines in unknown squares within a chunk, creating the chunk
    /// if it is missing. A chunk whose mines have been placed stays as it
    /// is.
    pub fn place_mines_in_chunk(&mut self, pos: ChunkPos)
        ensures
            placed_in(old(self)@, pos) ==> final(self)@ == old(self)@,
            placed_in(final(self)@, pos),
            final(self)@.dom() == old(self)@.dom().insert(pos),
            forall|other: ChunkPos|
                other != pos && old(self)@.contains_key(other) ==> #[trigger] final(self)@[other]
                    == old(self)@[other],
            !placed_in(old(self)@, pos) ==> chunk_in(old(self)@, pos).mines_placed_into(
                final(self)@[pos],
            ),
            mines_placed_between(old(self)@, final(self)@),
            forall|other: ChunkPos|
                other != pos ==> #[trigger] placed_in(final(self)@, other) == placed_in(
                    old(self)@,
                    other,
                ),
            old(self).wf() ==> final(self).wf(),
    {
        proof {
            old(self).lemma_chunk_len(pos);
        }
        self.get_chunk_mut(pos).place_mines();
        proof {
            if placed_in(old(self)@, pos) {
                assert(final(self)@ =~= old(self)@);
            }
            assert(final(self)@.dom() =~= old(self)@.dom().insert(pos));
            assert forall|at: TilePos|
                tile_in(old(self)@, at).kept_or_mine_placed(
                    #[trigger] tile_in(final(self)@, at),
                ) by {
                Chunk::lemma_index_in_range(at);
            }
            assert forall|at: TilePos|
                placed_in(final(self)@, at.spec_chunk()) implies !(#[trigger] tile_in(
                final(self)@,
                at,
            )).undecided() || !old(self).wf() by {
                Chunk::lemma_index_in_range(at);
            }
        }
    }

    /// Toggles flag on a tile in the grid: none, flag, question mark, and
    /// round again. A revealed tile stays as it is.
    pub fn toggle_flag(&mut self, pos: TilePos)
        ensures
            tile_in(final(self)@, pos) == tile_in(old(self)@, pos).toggled(),
            forall|other: TilePos|
                other != pos ==> #[trigger] tile_in(final(self)@, other) == tile_in(
                    old(self)@,
                    other,
                ),
            forall|chunk: ChunkPos|
                #[trigger] placed_in(final(self)@, chunk) == placed_in(old(self)@, chunk),
            old(self).wf() ==> final(self).wf(),
            final(self)@.dom() == old(self)@.dom().insert(pos.spec_chunk()),
    {
        let tile = self.get_tile(pos);
        self.set_tile(pos, tile.toggle_flag());
    }
}

impl Default for Grid {
    fn default() -> (grid: Grid)
        ensures
            grid@ == Map::<ChunkPos, ChunkView>::empty(),
    {
        Grid::new()
    }
}

} // verus!
