//! Where each tile's picture lies on the sheet of sprites, and how large
//! the target is taken to be.

use crate::chunk::ChunkView;
use crate::grid::{tile_in, Grid};
use crate::pos::{chunk_on_plane, tile_of_index, ChunkPos, TilePos, CHUNK_AREA, CHUNK_SIZE};
use crate::tile::{FlagState, Tile};
use vstd::prelude::*;

verus! {

/// Minimum target width and height: a smaller target is taken to be this
/// large, so that nothing is divided by zero.
pub const MIN_TARGET_SIZE: u32 = 10;

/// The larger of `size` and `MIN_TARGET_SIZE`.
pub open spec fn spec_clamp_size(size: u32) -> u32 {
    if size < MIN_TARGET_SIZE {
        MIN_TARGET_SIZE
    } else {
        size
    }
}

/// Returns the width and height that a camera keeps for a render target of
/// the given width and height: each raised to `MIN_TARGET_SIZE` where it is
/// smaller.
pub fn clamp_target_dimensions(dimensions: (u32, u32)) -> (clamped: (u32, u32))
    ensures
        clamped.0 == spec_clamp_size(dimensions.0),
        clamped.1 == spec_clamp_size(dimensions.1),
{
    let (target_w, target_h) = dimensions;
    (
        if target_w < MIN_TARGET_SIZE {
            MIN_TARGET_SIZE
        } else {
            target_w
        },
        if target_h < MIN_TARGET_SIZE {
            MIN_TARGET_SIZE
        } else {
            target_h
        },
    )
}

/// Column and row of the background of a tile: the raised square for a
/// covered tile, the flat one for a revealed tile.
pub open spec fn spec_bg_sprite_coords(tile: Tile) -> (u32, u32) {
    match tile {
        Tile::Covered(_, _) => (1, 2),
        Tile::Number(_) | Tile::Mine => (0, 2),
    }
}

/// Column and row of what is drawn on top of a tile's background, if
/// anything is: the flag or the question mark, the digit of a number other
/// than zero, or the mine.
pub open spec fn spec_fg_sprite_coords(tile: Tile) -> Option<(u32, u32)> {
    match tile {
        Tile::Covered(f, _) => match f {
            FlagState::Blank => None,
            FlagState::Flag => Some((0u32, 1u32)),
            FlagState::Question => Some((1u32, 1u32)),
        },
        Tile::Number(n) => if n == 0 {
            None
        } else {
            Some(((n - 1) as u32, 0u32))
        },
        Tile::Mine => Some((2u32, 1u32)),
    }
}

/// Returns the column and row of the background of a tile.
pub fn bg_sprite_coords(tile: Tile) -> (coords: [u32; 2])
    ensures
        (coords[0], coords[1]) == spec_bg_sprite_coords(tile),
{
    match tile {
        Tile::Covered(_, _) => [1, 2],
        Tile::Number(_) | Tile::Mine => [0, 2],
    }
}

/// Returns the column and row of what is drawn on top of a tile's
/// background, if anything is.
pub fn fg_sprite_coords(tile: Tile) -> (coords: Option<[u32; 2]>)
    ensures
        match coords {
            Some(coords) => spec_fg_sprite_coords(tile) == Some((coords[0], coords[1])),
            None => spec_fg_sprite_coords(tile) is None,
        },
{
    match tile {
        Tile::Covered(f, _) => match f {
            FlagState::Blank => None,
            FlagState::Flag => Some([0, 1]),
            FlagState::Question => Some([1, 1]),
        },
        Tile::Number(0) => None,
        Tile::Number(i) => Some([i as u32 - 1, 0]),
        Tile::Mine => Some([2, 1]),
    }
}

/// One sprite to draw: a picture of the sheet, at a tile.
#[derive(Debug, Copy, Clone)]
pub struct TileAttr {
    /// The coordinates of the tile.
    pub tile_coords: [i32; 2],
    /// Column and row of the picture on the sheet.
    pub sprite_coords: [u32; 2],
}

impl TileAttr {
    /// What the sprite holds: the tile's coordinates, then the picture's.
    pub open spec fn view(&self) -> (int, int, int, int) {
        (
            self.tile_coords[0] as int,
            self.tile_coords[1] as int,
            self.sprite_coords[0] as int,
            self.sprite_coords[1] as int,
        )
    }

    /// Returns the sprite that draws the picture at `sprite_coords` at the
    /// tile at `tile_coords`.
    pub fn new(tile_coords: [i32; 2], sprite_coords: [u32; 2]) -> (attr: TileAttr)
        ensures
            attr@ == (
                tile_coords[0] as int,
                tile_coords[1] as int,
                sprite_coords[0] as int,
                sprite_coords[1] as int,
            ),
    {
        TileAttr { tile_coords, sprite_coords }
    }
}

/// What the sprites of `attrs` hold, one after the other.
pub open spec fn attr_views(attrs: Seq<TileAttr>) -> Seq<(int, int, int, int)> {
    Seq::new(attrs.len(), |i: int| attrs[i]@)
}

/// The sprites that draw `tile` at `pos`: its background, and on top of it
/// its foreground where it has one.
pub open spec fn tile_sprites(pos: TilePos, tile: Tile) -> Seq<(int, int, int, int)> {
    let bg = spec_bg_sprite_coords(tile);
    let below = seq![(pos.0 as int, pos.1 as int, bg.0 as int, bg.1 as int)];
    match spec_fg_sprite_coords(tile) {
        Some(fg) => below.push((pos.0 as int, pos.1 as int, fg.0 as int, fg.1 as int)),
        None => below,
    }
}

/// The sprites that draw the first `count` tiles of the chunk at `chunk`,
/// row by row.
pub open spec fn chunk_sprites(chunks: Map<ChunkPos, ChunkView>, chunk: ChunkPos, count: nat) -> Seq<
    (int, int, int, int),
>
    decreases count,
{
    if count == 0 {
        Seq::empty()
    } else {
        let pos = tile_of_index(chunk, count - 1);
        chunk_sprites(chunks, chunk, (count - 1) as nat) + tile_sprites(pos, tile_in(chunks, pos))
    }
}

/// Appends to `out` the sprites that draw `tile` at `pos`.
pub fn push_tile_attrs(out: &mut Vec<TileAttr>, pos: TilePos, tile: Tile)
    ensures
        attr_views(final(out)@) == attr_views(old(out)@) + tile_sprites(pos, tile),
{
    let tile_coords = [pos.0, pos.1];
    out.push(TileAttr::new(tile_coords, bg_sprite_coords(tile)));
    if let Some(fg) = fg_sprite_coords(tile) {
        out.push(TileAttr::new(tile_coords, fg));
    }
    assert(attr_views(out@) =~= attr_views(old(out)@) + tile_sprites(pos, tile));
}

/// Appends to `out` the sprites that draw the chunk at `chunk`, tile by
/// tile and row by row. A chunk that does not exist is drawn as covered
/// tiles, and is not created.
pub fn push_chunk_attrs(grid: &Grid, chunk: ChunkPos, out: &mut Vec<TileAttr>)
    requires
        chunk_on_plane(chunk),
    ensures
        attr_views(final(out)@) == attr_views(old(out)@) + chunk_sprites(
            grid@,
            chunk,
            CHUNK_AREA as nat,
        ),
{
    let ChunkPos(chunk_x, chunk_y) = chunk;
    let found = grid.get_chunk(chunk);
    let mut y: i32 = 0;
    while y < CHUNK_SIZE as i32
        invariant
            0 <= y <= 64,
            chunk == ChunkPos(chunk_x, chunk_y),
            chunk_on_plane(chunk),
            match found {
                Some(found) => grid@.contains_key(chunk) && found@ == grid@[chunk],
                None => !grid@.contains_key(chunk),
            },
            attr_views(out@) == attr_views(old(out)@) + chunk_sprites(grid@, chunk, (y * 64) as nat),
        decreases 64 - y,
    {
        let mut x: i32 = 0;
        while x < CHUNK_SIZE as i32
            invariant
                0 <= x <= 64,
                0 <= y < 64,
                chunk == ChunkPos(chunk_x, chunk_y),
                chunk_on_plane(chunk),
                match found {
                    Some(found) => grid@.contains_key(chunk) && found@ == grid@[chunk],
                    None => !grid@.contains_key(chunk),
                },
                attr_views(out@) == attr_views(old(out)@) + chunk_sprites(
                    grid@,
                    chunk,
                    (y * 64 + x) as nat,
                ),
            decreases 64 - x,
        {
            let pos = TilePos(x + chunk_x * CHUNK_SIZE as i32, y + chunk_y * CHUNK_SIZE as i32);
            let ghost drawn = attr_views(out@);
            proof {
                assert(pos == tile_of_index(chunk, y * 64 + x));
                assert(pos.spec_chunk() == chunk);
                crate::chunk::Chunk::lemma_index_in_range(pos);
            }
            let tile = match found {
                Some(found) => found.get_tile(TilePos(x, y)),
                None => Tile::default(),
            };
            assert(tile == tile_in(grid@, pos));
            push_tile_attrs(out, pos, tile);
            assert(attr_views(out@) =~= attr_views(old(out)@) + chunk_sprites(
                grid@,
                chunk,
                (y * 64 + x + 1) as nat,
            )) by {
                assert(chunk_sprites(grid@, chunk, (y * 64 + x + 1) as nat) == chunk_sprites(
                    grid@,
                    chunk,
                    (y * 64 + x) as nat,
                ) + tile_sprites(pos, tile));
            }
            x += 1;
        }
        y += 1;
    }
}

/// The coordinate one below `coord`, or `coord` itself where there is none
/// below.
pub open spec fn one_below(coord: i32) -> i32 {
    if coord > i32::MIN {
        (coord - 1) as i32
    } else {
        coord
    }
}

/// The coordinate one above `coord`, or `coord` itself where there is none
/// above.
pub open spec fn one_above(coord: i32) -> i32 {
    if coord < i32::MAX {
        (coord + 1) as i32
    } else {
        coord
    }
}

/// Returns the chunks at the lower left and upper right corners of what is
/// to be drawn when the tiles from `lower_left` to `upper_right` are in
/// sight: the chunks of the tiles one further out.
pub fn visible_chunks(lower_left: TilePos, upper_right: TilePos) -> (corners: (ChunkPos, ChunkPos))
    ensures
        corners.0 == TilePos(one_below(lower_left.0), one_below(lower_left.1)).spec_chunk(),
        corners.1 == TilePos(one_above(upper_right.0), one_above(upper_right.1)).spec_chunk(),
        chunk_on_plane(corners.0),
        chunk_on_plane(corners.1),
{
    let TilePos(x1, y1) = lower_left;
    let TilePos(x2, y2) = upper_right;
    let low = TilePos(
        if x1 > i32::MIN {
            x1 - 1
        } else {
            x1
        },
        if y1 > i32::MIN {
            y1 - 1
        } else {
            y1
        },
    );
    let high = TilePos(
        if x2 < i32::MAX {
            x2 + 1
        } else {
            x2
        },
        if y2 < i32::MAX {
            y2 + 1
        } else {
            y2
        },
    );
    (low.chunk(), high.chunk())
}

/// The sprites that draw `count` chunks side by side, from the chunk at
/// `chunk` to the right.
pub open spec fn row_sprites(chunks: Map<ChunkPos, ChunkView>, chunk: ChunkPos, count: nat) -> Seq<
    (int, int, int, int),
>
    decreases count,
{
    if count == 0 {
        Seq::empty()
    } else {
        row_sprites(chunks, chunk, (count - 1) as nat) + chunk_sprites(
            chunks,
            ChunkPos((chunk.0 + count - 1) as i32, chunk.1),
            CHUNK_AREA as nat,
        )
    }
}

/// The sprites that draw `rows` rows of `columns` chunks, from the chunk at
/// `chunk` to the right and upward, row by row.
pub open spec fn region_sprites(
    chunks: Map<ChunkPos, ChunkView>,
    chunk: ChunkPos,
    columns: nat,
    rows: nat,
) -> Seq<(int, int, int, int)>
    decreases rows,
{
    if rows == 0 {
        Seq::empty()
    } else {
        region_sprites(chunks, chunk, columns, (rows - 1) as nat) + row_sprites(
            chunks,
            ChunkPos(chunk.0, (chunk.1 + rows - 1) as i32),
            columns,
        )
    }
}

/// The number of chunks from the coordinate `low` to `high`, both counted.
pub open spec fn chunk_span(low: i32, high: i32) -> nat {
    if low <= high {
        (high - low + 1) as nat
    } else {
        0
    }
}

/// Returns the sprites that draw the chunks from `low` to `high`, row by
/// row and in each row from left to right. No chunk is created.
pub fn visible_tile_attrs(grid: &Grid, low: ChunkPos, high: ChunkPos) -> (attrs: Vec<TileAttr>)
    requires
        chunk_on_plane(low),
        chunk_on_plane(high),
    ensures
        attr_views(attrs@) == region_sprites(
            grid@,
            low,
            chunk_span(low.0, high.0),
            chunk_span(low.1, high.1),
        ),
{
    let mut attrs: Vec<TileAttr> = Vec::new();
    let ghost columns = chunk_span(low.0, high.0);
    let mut chunk_y: i32 = low.1;
    assert(attr_views(attrs@) =~= region_sprites(grid@, low, columns, 0));
    while chunk_y <= high.1
        invariant
            chunk_on_plane(low),
            chunk_on_plane(high),
            columns == chunk_span(low.0, high.0),
            low.1 <= chunk_y <= high.1 + 1 || (low.1 > high.1 && chunk_y == low.1),
            attr_views(attrs@) == region_sprites(
                grid@,
                low,
                columns,
                chunk_span(low.1, (chunk_y - 1) as i32),
            ),
        decreases high.1 + 1 - chunk_y,
    {
        let ghost above = attr_views(attrs@);
        let mut chunk_x: i32 = low.0;
        assert(attr_views(attrs@) =~= above + row_sprites(grid@, ChunkPos(low.0, chunk_y), 0));
        while chunk_x <= high.0
            invariant
                chunk_on_plane(low),
                chunk_on_plane(high),
                low.1 <= chunk_y <= high.1,
                low.0 <= chunk_x <= high.0 + 1 || (low.0 > high.0 && chunk_x == low.0),
                attr_views(attrs@) == above + row_sprites(
                    grid@,
                    ChunkPos(low.0, chunk_y),
                    chunk_span(low.0, (chunk_x - 1) as i32),
                ),
            decreases high.0 + 1 - chunk_x,
        {
            let ghost before = attr_views(attrs@);
            push_chunk_attrs(grid, ChunkPos(chunk_x, chunk_y), &mut attrs);
            assert(attr_views(attrs@) =~= above + row_sprites(
                grid@,
                ChunkPos(low.0, chunk_y),
                chunk_span(low.0, chunk_x),
            ));
            chunk_x += 1;
        }
        assert(chunk_span(low.0, (chunk_x - 1) as i32) == columns);
        chunk_y += 1;
    }
    attrs
}

} // verus!
