//! The rules of revealing, as relations between the grid before and the
//! grid after: what may change when mines are placed and tiles are
//! revealed, and what has to hold once revealing from some tiles is done.

use crate::chunk::ChunkView;
use crate::grid::{mines_placed_between, placed_in, tile_in};
use crate::pos::{ChunkPos, TilePos};
use crate::tile::Tile;
use vstd::prelude::*;

verus! {

/// The number of tiles around `pos` whose tile in `chunks` is one that
/// `counted` holds of.
pub open spec fn count_around(
    chunks: Map<ChunkPos, ChunkView>,
    pos: TilePos,
    counted: spec_fn(Tile) -> bool,
) -> nat {
    Set::new(|near: TilePos| pos.touches(near) && counted(tile_in(chunks, near))).len()
}

/// The number of tiles around `pos` that hold a mine in `chunks`, revealed
/// or not.
pub open spec fn mines_around(chunks: Map<ChunkPos, ChunkView>, pos: TilePos) -> nat {
    count_around(chunks, pos, |tile: Tile| tile.holds_mine())
}

/// The number of tiles around `pos` that the player treats as mines in
/// `chunks`: flagged tiles and revealed mines.
pub open spec fn assumed_mines_around(chunks: Map<ChunkPos, ChunkView>, pos: TilePos) -> nat {
    count_around(chunks, pos, |tile: Tile| tile.assumed_mine())
}

/// Whether the chunk at `chunk` holds one of the tiles around `pos`.
pub open spec fn chunk_around(pos: TilePos, chunk: ChunkPos) -> bool {
    exists|near: TilePos| pos.touches(near) && #[trigger] near.spec_chunk() == chunk
}

/// The tiles around `pos`.
pub open spec fn tiles_around(pos: TilePos) -> Set<TilePos> {
    Set::new(|near: TilePos| pos.touches(near))
}

/// Whether the tile at `pos` is revealed in `after` and was not in `before`.
pub open spec fn newly_revealed(
    before: Map<ChunkPos, ChunkView>,
    after: Map<ChunkPos, ChunkView>,
    pos: TilePos,
) -> bool {
    tile_in(after, pos).is_revealed() && !tile_in(before, pos).is_revealed()
}

/// Whether `after` comes from `before` by placing mines and revealing
/// tiles: chunks stay, placed chunks stay placed, a chunk that is new has
/// its mines placed, every tile has settled, and a tile that was not
/// revealed changes only where mines are newly placed.
pub open spec fn settled_between(
    before: Map<ChunkPos, ChunkView>,
    after: Map<ChunkPos, ChunkView>,
) -> bool {
    &&& forall|chunk: ChunkPos|
        before.contains_key(chunk) ==> #[trigger] after.contains_key(chunk)
    &&& forall|chunk: ChunkPos|
        #[trigger] after.contains_key(chunk) ==> before.contains_key(chunk) || placed_in(
            after,
            chunk,
        )
    &&& forall|chunk: ChunkPos| placed_in(before, chunk) ==> #[trigger] placed_in(after, chunk)
    &&& forall|pos: TilePos| tile_in(before, pos).settles_into(#[trigger] tile_in(after, pos))
    &&& forall|pos: TilePos|
        placed_in(after, pos.spec_chunk()) == placed_in(before, pos.spec_chunk())
            && !newly_revealed(before, after, pos) ==> #[trigger] tile_in(after, pos) == tile_in(
            before,
            pos,
        )
}

/// Whether the number on the tile at `pos`, if it is one, is the number of
/// mines around it, all of them in chunks whose mines have been placed.
pub open spec fn number_holds(chunks: Map<ChunkPos, ChunkView>, pos: TilePos) -> bool {
    tile_in(chunks, pos) matches Tile::Number(n) ==> {
        &&& n == mines_around(chunks, pos)
        &&& forall|near: TilePos| #[trigger]
            pos.touches(near) ==> placed_in(chunks, near.spec_chunk())
    }
}

/// Whether `after` comes from `before` by revealing the one tile at `pos`,
/// and `spread` tells that the tiles around it are to be revealed next.
///
/// The mines of its chunk are placed. A tile that is revealed already or
/// carries a flag stays, and so does every chunk but its own. Any other tile
/// is revealed: as a mine, or as the number of mines around it, for which
/// the mines of the chunks around it are placed too. No other tile is
/// revealed, and `spread` holds where the tile has become a zero.
#[verifier::opaque]
pub open spec fn one_revealed_between(
    before: Map<ChunkPos, ChunkView>,
    after: Map<ChunkPos, ChunkView>,
    pos: TilePos,
    spread: bool,
) -> bool {
    &&& settled_between(before, after)
    &&& placed_in(after, pos.spec_chunk())
    &&& forall|other: TilePos|
        other != pos ==> (#[trigger] tile_in(after, other)).is_revealed() == tile_in(
            before,
            other,
        ).is_revealed()
    &&& forall|chunk: ChunkPos|
        chunk != pos.spec_chunk() && !(chunk_around(pos, chunk) && newly_revealed(
            before,
            after,
            pos,
        ) && tile_in(after, pos) is Number) ==> (#[trigger] after.contains_key(chunk)
            == before.contains_key(chunk) && placed_in(after, chunk) == placed_in(before, chunk))
    &&& if tile_in(before, pos).is_revealed() || tile_in(before, pos).flagged() {
        !spread
    } else {
        &&& tile_in(after, pos).is_revealed()
        &&& number_holds(after, pos)
        &&& spread == (tile_in(after, pos) == Tile::Number(0))
    }
}

/// Whether every tile around `pos` is revealed or flagged in `chunks`, or
/// waits in `pending` to be revealed.
pub open spec fn opened_around(
    chunks: Map<ChunkPos, ChunkView>,
    pos: TilePos,
    pending: Seq<TilePos>,
) -> bool {
    forall|near: TilePos| #[trigger]
        pos.touches(near) ==> tile_in(chunks, near).is_revealed() || tile_in(
            chunks,
            near,
        ).flagged() || pending.contains(near)
}

/// Whether `path` leads from one of `starts` from tile to touching tile,
/// every tile of it but the last one a zero that is revealed in `after` and
/// was not in `before`.
pub open spec fn zero_chain(
    before: Map<ChunkPos, ChunkView>,
    after: Map<ChunkPos, ChunkView>,
    starts: Set<TilePos>,
    path: Seq<TilePos>,
) -> bool {
    &&& path.len() >= 1
    &&& starts.contains(path[0])
    &&& forall|i: int|
        0 <= i < path.len() - 1 ==> {
            &&& (#[trigger] path[i]).touches(path[i + 1])
            &&& tile_in(after, path[i]) == Tile::Number(0)
            &&& !tile_in(before, path[i]).is_revealed()
        }
}

/// Whether a chain of newly revealed zeros leads from one of `starts` to
/// `pos`.
pub open spec fn reached(
    before: Map<ChunkPos, ChunkView>,
    after: Map<ChunkPos, ChunkView>,
    starts: Set<TilePos>,
    pos: TilePos,
) -> bool {
    exists|path: Seq<TilePos>| #[trigger]
        zero_chain(before, after, starts, path) && path.last() == pos
}

/// Whether revealing from `starts` had cause to place mines in the chunk at
/// `chunk`: it holds one of `starts`, or a tile around a newly revealed
/// number.
pub open spec fn chunk_reached(
    before: Map<ChunkPos, ChunkView>,
    after: Map<ChunkPos, ChunkView>,
    starts: Set<TilePos>,
    chunk: ChunkPos,
) -> bool {
    ||| exists|start: TilePos| starts.contains(start) && #[trigger] start.spec_chunk() == chunk
    ||| exists|pos: TilePos|
        newly_revealed(before, after, pos) && tile_in(after, pos) is Number
            && #[trigger] chunk_around(pos, chunk)
}

/// Whether each of `starts` is revealed or flagged in `chunks`, in a chunk
/// whose mines are placed, or waits in `pending`.
pub open spec fn starts_done(
    chunks: Map<ChunkPos, ChunkView>,
    starts: Set<TilePos>,
    pending: Seq<TilePos>,
) -> bool {
    forall|start: TilePos| #[trigger]
        starts.contains(start) ==> pending.contains(start) || (placed_in(
            chunks,
            start.spec_chunk(),
        ) && (tile_in(chunks, start).is_revealed() || tile_in(chunks, start).flagged()))
}

/// Whether each newly revealed tile is as it should be: a number is the
/// number of mines around it; around a zero every tile is revealed or
/// flagged, or waits in `pending`; and the tile is reached from one of
/// `starts` by a chain of newly revealed zeros.
pub open spec fn revealed_right(
    before: Map<ChunkPos, ChunkView>,
    after: Map<ChunkPos, ChunkView>,
    starts: Set<TilePos>,
    pending: Seq<TilePos>,
) -> bool {
    forall|pos: TilePos| #[trigger]
        newly_revealed(before, after, pos) ==> {
            &&& number_holds(after, pos)
            &&& tile_in(after, pos) == Tile::Number(0) ==> opened_around(after, pos, pending)
            &&& reached(before, after, starts, pos)
        }
}

/// Whether each tile of `pending` is reached from one of `starts` by a
/// chain of newly revealed zeros.
pub open spec fn pending_reached(
    before: Map<ChunkPos, ChunkView>,
    after: Map<ChunkPos, ChunkView>,
    starts: Set<TilePos>,
    pending: Seq<TilePos>,
) -> bool {
    forall|i: int|
        0 <= i < pending.len() ==> reached(before, after, starts, #[trigger] pending[i])
}

/// Whether each chunk that was not reached is as it was: there or not, its
/// mines placed or not.
pub open spec fn chunks_kept(
    before: Map<ChunkPos, ChunkView>,
    after: Map<ChunkPos, ChunkView>,
    starts: Set<TilePos>,
) -> bool {
    forall|chunk: ChunkPos|
        !chunk_reached(before, after, starts, chunk) ==> (#[trigger] after.contains_key(chunk)
            == before.contains_key(chunk) && placed_in(after, chunk) == placed_in(before, chunk))
}

/// Whether `after` comes from `before` by revealing from `starts`, with the
/// tiles of `pending` still waiting for their turn; with none pending, the
/// revealing is done.
///
/// - The grid has settled: nothing but placing mines and revealing was
///   done.
/// - Each of `starts` is revealed or flagged, in a chunk whose mines are
///   placed, or waits.
/// - Each newly revealed number is the number of mines around it.
/// - Around each newly revealed zero every tile is revealed or flagged, or
///   waits.
/// - Each newly revealed tile, and each that waits, is reached from one of
///   `starts` by a chain of newly revealed zeros.
/// - A chunk that was not reached is as it was.
#[verifier::opaque]
pub open spec fn flooded_between(
    before: Map<ChunkPos, ChunkView>,
    after: Map<ChunkPos, ChunkView>,
    starts: Set<TilePos>,
    pending: Seq<TilePos>,
) -> bool {
    &&& settled_between(before, after)
    &&& starts_done(after, starts, pending)
    &&& revealed_right(before, after, starts, pending)
    &&& pending_reached(before, after, starts, pending)
    &&& chunks_kept(before, after, starts)
}

/// What waits after the turn of the first of `pending`: the others, and
/// behind them the tiles `around` it where it became a zero.
pub open spec fn waiting_after(pending: Seq<TilePos>, spread: bool, around: Seq<TilePos>) -> Seq<
    TilePos,
> {
    if spread {
        pending.subrange(1, pending.len() as int) + around
    } else {
        pending.subrange(1, pending.len() as int)
    }
}

/// Whether `after` comes from `before` by revealing around the number at
/// `pos`.
///
/// Where the tile at `pos` is no revealed number, nothing changes.
/// Otherwise the mines of the chunks around it are placed. Where just as
/// many tiles around it are flags or revealed mines as the number says,
/// every tile around it is revealed as `reveal_hidden` does; where not,
/// nothing more is done, and only the chunks around it have changed.
pub open spec fn chord_between(
    before: Map<ChunkPos, ChunkView>,
    after: Map<ChunkPos, ChunkView>,
    pos: TilePos,
) -> bool {
    match tile_in(before, pos) {
        Tile::Number(n) => {
            &&& forall|near: TilePos| #[trigger]
                pos.touches(near) ==> placed_in(after, near.spec_chunk())
            &&& if n == assumed_mines_around(before, pos) {
                flooded_between(before, after, tiles_around(pos), Seq::empty())
            } else {
                &&& mines_placed_between(before, after)
                &&& forall|chunk: ChunkPos|
                    !chunk_around(pos, chunk) ==> (#[trigger] after.contains_key(chunk)
                        == before.contains_key(chunk) && placed_in(after, chunk) == placed_in(
                        before,
                        chunk,
                    ))
            }
        },
        _ => after == before,
    }
}

/// The place of a tile position in a count of all positions.
pub open spec fn pos_code(pos: TilePos) -> int {
    (pos.0 - i32::MIN) * 0x1_0000_0000 + (pos.1 - i32::MIN)
}

/// The codes of the positions whose tile is revealed in `chunks`.
pub open spec fn revealed_codes(chunks: Map<ChunkPos, ChunkView>) -> Set<int> {
    Set::new(
        |code: int|
            exists|pos: TilePos|
                #[trigger] pos_code(pos) == code && tile_in(chunks, pos).is_revealed(),
    )
}

/// The number of positions whose tile is covered in `chunks`.
pub open spec fn covered_count(chunks: Map<ChunkPos, ChunkView>) -> int {
    0x1_0000_0000_0000_0000 - revealed_codes(chunks).len()
}

} // verus!
