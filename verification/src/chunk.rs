//! A square block of tiles, the unit in which the plane is created and in
//! which mines are placed.

use crate::pos::{TilePos, CHUNK_AREA, CHUNK_SIZE, CHUNK_SIZE_LOG_2};
use crate::tile::{HiddenState, PackedTile, Tile};
use rand::rngs::ThreadRng;
use rand::Rng;
use vstd::prelude::*;

verus! {

/// Mines are placed with a probability of `MINE_ODDS` in `MINE_ODDS_OUT_OF`.
pub const MINE_ODDS: u32 = 1;

/// See `MINE_ODDS`.
pub const MINE_ODDS_OUT_OF: u32 = 5;

/// `rand::rngs::ThreadRng`, the handle to the thread's random number
/// generator. Nothing is known of what it holds.
#[verifier::external_type_specification]
#[verifier::external_body]
pub struct ExThreadRng(ThreadRng);

/// `rand::thread_rng`, which hands out the thread's random number
/// generator. Nothing is claimed of the generator.
#[verifier::external_body]
pub(crate) fn thread_rng() -> ThreadRng {
    rand::thread_rng()
}

/// `Rng::gen_ratio` on the thread's generator: a draw that is `true` with a
/// probability of `numerator` in `denominator`. Nothing is claimed of the
/// outcome; the bounds are those outside which the call panics.
#[verifier::external_body]
pub(crate) fn gen_ratio(rng: &mut ThreadRng, numerator: u32, denominator: u32) -> bool
    requires
        denominator != 0,
        numerator <= denominator,
{
    rng.gen_ratio(numerator, denominator)
}

/// What a chunk holds: its tiles row by row, and whether its mines have been
/// placed.
pub struct ChunkView {
    /// The `CHUNK_AREA` tiles, the tile at `(x, y)` at index
    /// `(y mod CHUNK_SIZE) * CHUNK_SIZE + (x mod CHUNK_SIZE)`.
    pub tiles: Seq<Tile>,
    /// Whether mines have been placed in the chunk.
    pub all_mines_placed: bool,
}

impl ChunkView {
    /// A chunk that nothing has touched: every tile covered, unflagged and
    /// undecided, and no mines placed.
    pub open spec fn fresh() -> ChunkView {
        ChunkView {
            tiles: Seq::new(CHUNK_AREA as nat, |i: int| Tile::untouched()),
            all_mines_placed: false,
        }
    }

    /// The chunk with the tile at `index` replaced.
    pub open spec fn with_tile(self, index: int, tile: Tile) -> ChunkView {
        ChunkView { tiles: self.tiles.update(index, tile), all_mines_placed: self.all_mines_placed }
    }

    /// Whether `after` is this chunk with its mines placed: each tile is the
    /// old one decided by some draw, and the chunk is marked as placed.
    pub open spec fn mines_placed_into(self, after: ChunkView) -> bool {
        &&& after.all_mines_placed
        &&& after.tiles.len() == self.tiles.len()
        &&& forall|i: int|
            0 <= i < self.tiles.len() ==> self.tiles[i].mine_placed_into(#[trigger] after.tiles[i])
    }

    /// Whether no tile of the chunk is still undecided.
    pub open spec fn all_decided(self) -> bool {
        forall|i: int| 0 <= i < self.tiles.len() ==> !(#[trigger] self.tiles[i]).undecided()
    }
}

/// The bytes that stand for `tiles`, one for each.
pub open spec fn tile_bytes(tiles: Seq<Tile>) -> Seq<u8> {
    Seq::new(tiles.len(), |i: int| tiles[i].encode())
}

/// The tiles that `bytes` stand for, one for each.
pub open spec fn tiles_of_bytes(bytes: Seq<u8>) -> Seq<Tile> {
    Seq::new(bytes.len(), |i: int| Tile::decode(bytes[i]))
}

/// Whether every one of `bytes` stands for a tile.
pub open spec fn all_encodings(bytes: Seq<u8>) -> bool {
    forall|i: int| 0 <= i < bytes.len() ==> Tile::is_encoding(#[trigger] bytes[i])
}

/// Whether every one of `tiles` is a tile that the encoding can carry.
pub open spec fn all_valid(tiles: Seq<Tile>) -> bool {
    forall|i: int| 0 <= i < tiles.len() ==> (#[trigger] tiles[i]).valid()
}

/// Reading the bytes that were written for valid tiles gives the tiles back.
pub proof fn lemma_tile_bytes_round_trip(tiles: Seq<Tile>)
    requires
        all_valid(tiles),
    ensures
        all_encodings(tile_bytes(tiles)),
        tiles_of_bytes(tile_bytes(tiles)) == tiles,
{
    assert forall|i: int| 0 <= i < tiles.len() implies Tile::is_encoding(
        #[trigger] tile_bytes(tiles)[i],
    ) && Tile::decode(tile_bytes(tiles)[i]) == tiles[i] by {
        assert(tiles[i].valid());
        Tile::encoding_round_trip(tiles[i]);
    }
    assert(tiles_of_bytes(tile_bytes(tiles)) =~= tiles);
}

/// Square chunk of tiles.
#[derive(Debug, Clone, PartialEq, Eq, Hash)]
pub struct Chunk {
    tiles: [PackedTile; CHUNK_AREA],
    all_mines_placed: bool,
}

impl View for Chunk {
    type V = ChunkView;

    closed spec fn view(&self) -> ChunkView {
        ChunkView {
            tiles: Seq::new(CHUNK_AREA as nat, |i: int| self.tiles[i]@),
            all_mines_placed: self.all_mines_placed,
        }
    }
}

impl Default for Chunk {
    fn default() -> (chunk: Chunk)
        ensures
            chunk@ == ChunkView::fresh(),
    {
        Chunk::untouched()
    }
}

impl Chunk {
    /// Returns a chunk that nothing has touched.
    fn untouched() -> (chunk: Chunk)
        ensures
            chunk@ == ChunkView::fresh(),
    {
        let chunk = Chunk { tiles: [PackedTile::default();CHUNK_AREA], all_mines_placed: false };
        assert(chunk@.tiles =~= ChunkView::fresh().tiles);
        chunk
    }

    /// The index of a tile position in its chunk: rows of `CHUNK_SIZE`
    /// tiles, each coordinate taken modulo `CHUNK_SIZE`.
    pub open spec fn spec_index_of_tile(pos: TilePos) -> int {
        (pos.1 as int % 64) * 64 + pos.0 as int % 64
    }

    /// The index of a tile lies within the chunk.
    pub proof fn lemma_index_in_range(pos: TilePos)
        ensures
            0 <= Chunk::spec_index_of_tile(pos) < CHUNK_AREA,
    {
    }

    /// Positions that differ by a multiple of `CHUNK_SIZE` along each axis
    /// have the same index.
    pub proof fn lemma_index_wraps(p: TilePos, q: TilePos)
        requires
            (p.0 - q.0) % (CHUNK_SIZE as int) == 0,
            (p.1 - q.1) % (CHUNK_SIZE as int) == 0,
        ensures
            Chunk::spec_index_of_tile(p) == Chunk::spec_index_of_tile(q),
    {
    }

    /// Two different positions in one chunk have different indices.
    pub proof fn lemma_index_distinct_in_chunk(p: TilePos, q: TilePos)
        requires
            p.spec_chunk() == q.spec_chunk(),
            p != q,
        ensures
            Chunk::spec_index_of_tile(p) != Chunk::spec_index_of_tile(q),
    {
    }

    /// Every chunk holds `CHUNK_AREA` tiles.
    pub proof fn lemma_len(&self)
        ensures
            self@.tiles.len() == CHUNK_AREA,
    {
    }

    /// Returns the index of a tile position in its chunk.
    pub fn index_of_tile(pos: TilePos) -> (index: usize)
        ensures
            index == Chunk::spec_index_of_tile(pos),
            index < CHUNK_AREA,
    {
        let TilePos(px, py) = pos;
        let x: i32 = px & (CHUNK_SIZE as i32 - 1);
        let y: i32 = py & (CHUNK_SIZE as i32 - 1);
        assert(px & 63 == px as int % 64) by (bit_vector);
        assert(py & 63 == py as int % 64) by (bit_vector);
        assert(((y as usize) << 6usize | x as usize) == y * 64 + x) by (bit_vector)
            requires
                0 <= x < 64,
                0 <= y < 64,
        ;
        (y as usize) << CHUNK_SIZE_LOG_2 | x as usize
    }

    /// Returns a tile in the chunk.
    pub fn get_tile(&self, pos: TilePos) -> (tile: Tile)
        ensures
            tile == self@.tiles[Chunk::spec_index_of_tile(pos)],
            tile.valid(),
    {
        self.tiles[Chunk::index_of_tile(pos)].unpack()
    }

    /// Sets a tile in the chunk.
    pub fn set_tile(&mut self, pos: TilePos, tile: Tile)
        requires
            tile.valid(),
        ensures
            final(self)@ == old(self)@.with_tile(Chunk::spec_index_of_tile(pos), tile),
    {
        let index = Chunk::index_of_tile(pos);
        self.tiles[index] = tile.pack();
        assert(self@.tiles =~= old(self)@.tiles.update(index as int, tile));
    }

    /// Appends to `out` the bytes that stand for the tiles of the chunk, row
    /// by row.
    pub fn push_bytes(&self, out: &mut Vec<u8>)
        ensures
            final(out)@ == old(out)@ + tile_bytes(self@.tiles),
            all_valid(self@.tiles),
    {
        let mut index: usize = 0;
        while index < CHUNK_AREA
            invariant
                0 <= index <= CHUNK_AREA,
                out@.len() == old(out)@.len() + index,
                forall|i: int| 0 <= i < old(out)@.len() ==> out@[i] == old(out)@[i],
                forall|i: int|
                    0 <= i < index ==> out@[old(out)@.len() + i] == (#[trigger] self.tiles[i])@.encode()
                        && self.tiles[i]@.valid(),
            decreases CHUNK_AREA - index,
        {
            let packed = self.tiles[index];
            let tile = packed.unpack();
            out.push(packed.to_byte());
            index += 1;
        }
        proof {
            assert forall|i: int| 0 <= i < self@.tiles.len() implies (
            #[trigger] self@.tiles[i]).valid() by {
                assert(self.tiles[i]@.valid());
            }
            assert(out@ =~= old(out)@ + tile_bytes(self@.tiles)) by {
                assert forall|i: int| 0 <= i < CHUNK_AREA implies out@[old(out)@.len() + i]
                    == tile_bytes(self@.tiles)[i] by {
                    assert(out@[old(out)@.len() + i] == self.tiles[i]@.encode());
                }
            }
        }
    }

    /// Reads a chunk from the `CHUNK_AREA` bytes that start at `start` in
    /// `text`, one byte for each tile, row by row. Returns `None` where one
    /// of the bytes stands for no tile.
    pub fn from_bytes(text: &Vec<u8>, start: usize, all_mines_placed: bool) -> (chunk: Option<Chunk>)
        requires
            start + CHUNK_AREA <= text.len(),
        ensures
            match chunk {
                Some(chunk) => all_encodings(text@.subrange(start as int, start + CHUNK_AREA))
                    && chunk@ == (ChunkView {
                    tiles: tiles_of_bytes(text@.subrange(start as int, start + CHUNK_AREA)),
                    all_mines_placed,
                }),
                None => !all_encodings(text@.subrange(start as int, start + CHUNK_AREA)),
            },
    {
        let ghost bytes = text@.subrange(start as int, start + CHUNK_AREA);
        let mut chunk = Chunk::untouched();
        chunk.all_mines_placed = all_mines_placed;
        let mut index: usize = 0;
        while index < CHUNK_AREA
            invariant
                0 <= index <= CHUNK_AREA,
                start + CHUNK_AREA <= text.len(),
                bytes == text@.subrange(start as int, start + CHUNK_AREA),
                chunk.all_mines_placed == all_mines_placed,
                forall|i: int|
                    0 <= i < index ==> Tile::is_encoding(#[trigger] bytes[i]) && chunk.tiles[i]@
                        == Tile::decode(bytes[i]),
            decreases CHUNK_AREA - index,
        {
            match PackedTile::from_byte(text[start + index]) {
                Some(packed) => {
                    chunk.tiles[index] = packed;
                },
                None => {
                    assert(!Tile::is_encoding(bytes[index as int]));
                    return None;
                },
            }
            index += 1;
        }
        assert(chunk@.tiles =~= tiles_of_bytes(bytes));
        Some(chunk)
    }

    /// Returns whether no tile of the chunk is still undecided.
    pub fn all_decided(&self) -> (decided: bool)
        ensures
            decided == self@.all_decided(),
    {
        let mut index: usize = 0;
        while index < CHUNK_AREA
            invariant
                0 <= index <= CHUNK_AREA,
                forall|i: int| 0 <= i < index ==> !(#[trigger] self.tiles[i])@.undecided(),
            decreases CHUNK_AREA - index,
        {
            if let Tile::Covered(_, HiddenState::Unknown) = self.tiles[index].unpack() {
                assert(self@.tiles[index as int].undecided());
                return false;
            }
            index += 1;
        }
        assert forall|i: int| 0 <= i < self@.tiles.len() implies !(
        #[trigger] self@.tiles[i]).undecided() by {
            assert(!self.tiles[i]@.undecided());
        }
        true
    }

    /// Returns whether mines have been placed in the chunk.
    pub fn all_mines_placed(&self) -> (placed: bool)
        ensures
            placed == self@.all_mines_placed,
    {
        self.all_mines_placed
    }

    /// Places mines in the undecided tiles of the chunk, each by a draw of
    /// its own from the thread's random number generator, and marks the
    /// chunk as placed. A chunk that is marked already is left as it is.
    pub fn place_mines(&mut self)
        ensures
            old(self)@.all_mines_placed ==> final(self)@ == old(self)@,
            !old(self)@.all_mines_placed ==> old(self)@.mines_placed_into(final(self)@),
            final(self)@.all_mines_placed,
    {
        if self.all_mines_placed {
            return ;
        }
        let mut rng = thread_rng();
        let mut index: usize = 0;
        while index < CHUNK_AREA
            invariant
                0 <= index <= CHUNK_AREA,
                self.all_mines_placed == old(self).all_mines_placed,
                forall|i: int|
                    0 <= i < index ==> (#[trigger] old(self).tiles[i])@.mine_placed_into(
                        self.tiles[i]@,
                    ),
                forall|i: int|
                    index <= i < CHUNK_AREA ==> self.tiles[i] == #[trigger] old(self).tiles[i],
            decreases CHUNK_AREA - index,
        {
            let tile = self.tiles[index].unpack();
            if let Tile::Covered(_, HiddenState::Unknown) = tile {
                let is_mine = gen_ratio(&mut rng, MINE_ODDS, MINE_ODDS_OUT_OF);
                self.tiles[index] = tile.place_mine(is_mine).pack();
            }
            index += 1;
        }
        self.all_mines_placed = true;
        proof {
            assert forall|i: int| 0 <= i < old(self)@.tiles.len() implies old(
                self,
            )@.tiles[i].mine_placed_into(#[trigger] self@.tiles[i]) by {
                assert(old(self).tiles[i]@.mine_placed_into(self.tiles[i]@));
            }
        }
    }
}

} // verus!
