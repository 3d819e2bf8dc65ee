//! Why revealing keeps to its rules: what a turn of revealing one tile does
//! to the grid, and what follows once no tile waits any more.

use crate::chunk::ChunkView;
use crate::grid::{decided_in, mines_placed_between, placed_in, tile_in};
use crate::pos::{ChunkPos, TilePos};
use crate::rules::{
    assumed_mines_around, chunk_around, chunk_reached, chunks_kept, covered_count, flooded_between,
    mines_around, newly_revealed, number_holds, one_revealed_between, opened_around,
    pending_reached, pos_code, reached, revealed_codes, revealed_right, settled_between,
    starts_done, tiles_around, waiting_after, zero_chain,
};
use crate::tile::Tile;
use vstd::prelude::*;

verus! {

/// Placing mines twice in a row is placing mines.
pub proof fn lemma_mines_placed_twice(
    first: Map<ChunkPos, ChunkView>,
    second: Map<ChunkPos, ChunkView>,
    third: Map<ChunkPos, ChunkView>,
)
    requires
        mines_placed_between(first, second),
        mines_placed_between(second, third),
    ensures
        mines_placed_between(first, third),
{
    assert forall|pos: TilePos|
        tile_in(first, pos).kept_or_mine_placed(#[trigger] tile_in(third, pos)) by {
        assert(tile_in(first, pos).kept_or_mine_placed(tile_in(second, pos)));
    }
    assert forall|pos: TilePos|
        placed_in(third, pos.spec_chunk()) == placed_in(first, pos.spec_chunk()) implies #[trigger] tile_in(
        third,
        pos,
    ) == tile_in(first, pos) by {
        assert(tile_in(second, pos) == tile_in(first, pos));
    }
    assert forall|chunk: ChunkPos| #[trigger] third.contains_key(chunk) implies first.contains_key(
        chunk,
    ) || placed_in(third, chunk) by {
        if second.contains_key(chunk) && !first.contains_key(chunk) {
            assert(placed_in(second, chunk));
        }
    }
}

/// Placing mines settles the grid.
pub proof fn lemma_placing_settles(
    before: Map<ChunkPos, ChunkView>,
    after: Map<ChunkPos, ChunkView>,
)
    requires
        mines_placed_between(before, after),
    ensures
        settled_between(before, after),
        forall|pos: TilePos|
            (#[trigger] tile_in(after, pos)).is_revealed() == tile_in(before, pos).is_revealed(),
{
    assert forall|pos: TilePos|
        tile_in(before, pos).settles_into(#[trigger] tile_in(after, pos)) && tile_in(
            after,
            pos,
        ).is_revealed() == tile_in(before, pos).is_revealed() by {
        assert(tile_in(before, pos).kept_or_mine_placed(tile_in(after, pos)));
    }
}

/// Settling twice in a row is settling.
pub proof fn lemma_settled_twice(
    first: Map<ChunkPos, ChunkView>,
    second: Map<ChunkPos, ChunkView>,
    third: Map<ChunkPos, ChunkView>,
)
    requires
        settled_between(first, second),
        settled_between(second, third),
    ensures
        settled_between(first, third),
{
    assert forall|pos: TilePos|
        tile_in(first, pos).settles_into(#[trigger] tile_in(third, pos)) by {
        assert(tile_in(first, pos).settles_into(tile_in(second, pos)));
        assert(tile_in(second, pos).settles_into(tile_in(third, pos)));
    }
    assert forall|pos: TilePos|
        placed_in(third, pos.spec_chunk()) == placed_in(first, pos.spec_chunk())
            && !newly_revealed(first, third, pos) implies #[trigger] tile_in(third, pos)
        == tile_in(first, pos) by {
        assert(tile_in(first, pos).settles_into(tile_in(second, pos)));
        assert(tile_in(second, pos).settles_into(tile_in(third, pos)));
        assert(tile_in(second, pos) == tile_in(first, pos));
        assert(tile_in(third, pos) == tile_in(second, pos));
    }
    assert forall|chunk: ChunkPos| #[trigger] third.contains_key(chunk) implies first.contains_key(
        chunk,
    ) || placed_in(third, chunk) by {
        if second.contains_key(chunk) && !first.contains_key(chunk) {
            assert(placed_in(second, chunk));
        }
    }
}

/// Placing mines changes no flag and reveals nothing, so the number of
/// tiles around a tile that the player treats as mines stays.
pub proof fn lemma_assumed_mines_kept(
    before: Map<ChunkPos, ChunkView>,
    after: Map<ChunkPos, ChunkView>,
    pos: TilePos,
)
    requires
        mines_placed_between(before, after),
    ensures
        assumed_mines_around(after, pos) == assumed_mines_around(before, pos),
{
    let assumed = |tile: Tile| tile.assumed_mine();
    assert forall|near: TilePos| pos.touches(near) implies tile_in(after, near).assumed_mine()
        == tile_in(before, near).assumed_mine() by {
        assert(tile_in(before, near).kept_or_mine_placed(tile_in(after, near)));
    }
    assert(Set::new(|near: TilePos| pos.touches(near) && assumed(tile_in(after, near)))
        =~= Set::new(|near: TilePos| pos.touches(near) && assumed(tile_in(before, near))));
}

/// The number of mines around a tile stays while the grid settles, once
/// the mines of the chunks around it are placed.
pub proof fn lemma_mines_around_kept(
    middle: Map<ChunkPos, ChunkView>,
    after: Map<ChunkPos, ChunkView>,
    pos: TilePos,
)
    requires
        settled_between(middle, after),
        decided_in(middle),
        forall|near: TilePos| #[trigger] pos.touches(near) ==> placed_in(middle, near.spec_chunk()),
    ensures
        mines_around(after, pos) == mines_around(middle, pos),
{
    let holds = |tile: Tile| tile.holds_mine();
    assert forall|near: TilePos| pos.touches(near) implies tile_in(after, near).holds_mine()
        == tile_in(middle, near).holds_mine() by {
        assert(placed_in(middle, near.spec_chunk()));
        assert(!tile_in(middle, near).undecided());
        assert(tile_in(middle, near).settles_into(tile_in(after, near)));
    }
    assert(Set::new(|near: TilePos| pos.touches(near) && holds(tile_in(after, near))) =~= Set::new(
        |near: TilePos| pos.touches(near) && holds(tile_in(middle, near)),
    ));
}

/// The tiles around a tile are finitely many.
pub proof fn lemma_around_finite(pos: TilePos)
    ensures
        tiles_around(pos).finite(),
        tiles_around(pos).len() <= 8,
{
    let shifted = |dx: int, dy: int| TilePos((pos.0 + dx) as i32, (pos.1 + dy) as i32);
    let all = set![
        shifted(-1, -1),
        shifted(-1, 0),
        shifted(-1, 1),
        shifted(0, -1),
        shifted(0, 1),
        shifted(1, -1),
        shifted(1, 0),
        shifted(1, 1),
    ];
    assert forall|near: TilePos| tiles_around(pos).contains(near) implies all.contains(near) by {
        assert(near == shifted(near.0 - pos.0, near.1 - pos.1));
    }
    assert(all.finite() && all.len() <= 8);
    vstd::set_lib::lemma_len_subset(tiles_around(pos), all);
}

/// Where the number of mines around a tile is zero, no tile around it
/// holds a mine.
pub proof fn lemma_no_mines_around(chunks: Map<ChunkPos, ChunkView>, pos: TilePos, near: TilePos)
    requires
        mines_around(chunks, pos) == 0,
        pos.touches(near),
    ensures
        !tile_in(chunks, near).holds_mine(),
{
    let holds = |tile: Tile| tile.holds_mine();
    let mines = Set::new(|near: TilePos| pos.touches(near) && holds(tile_in(chunks, near)));
    lemma_around_finite(pos);
    assert(mines.subset_of(tiles_around(pos)));
    vstd::set_lib::lemma_len_subset(mines, tiles_around(pos));
    mines.lemma_len0_is_empty();
    if tile_in(chunks, near).holds_mine() {
        assert(mines.contains(near));
    }
}

/// A chain of newly revealed zeros stays one while the grid settles.
pub proof fn lemma_chain_kept(
    before: Map<ChunkPos, ChunkView>,
    middle: Map<ChunkPos, ChunkView>,
    after: Map<ChunkPos, ChunkView>,
    starts: Set<TilePos>,
    path: Seq<TilePos>,
)
    requires
        zero_chain(before, middle, starts, path),
        settled_between(middle, after),
    ensures
        zero_chain(before, after, starts, path),
{
    assert forall|i: int| 0 <= i < path.len() - 1 implies tile_in(after, #[trigger] path[i])
        == Tile::Number(0) by {
        assert(tile_in(middle, path[i]).settles_into(tile_in(after, path[i])));
    }
}

/// A tile that is reached stays reached while the grid settles.
pub proof fn lemma_reached_kept(
    before: Map<ChunkPos, ChunkView>,
    middle: Map<ChunkPos, ChunkView>,
    after: Map<ChunkPos, ChunkView>,
    starts: Set<TilePos>,
    pos: TilePos,
)
    requires
        reached(before, middle, starts, pos),
        settled_between(middle, after),
    ensures
        reached(before, after, starts, pos),
{
    let path = choose|path: Seq<TilePos>| #[trigger]
        zero_chain(before, middle, starts, path) && path.last() == pos;
    lemma_chain_kept(before, middle, after, starts, path);
}

/// A tile that touches a newly revealed zero that is reached is reached.
pub proof fn lemma_reached_extends(
    before: Map<ChunkPos, ChunkView>,
    after: Map<ChunkPos, ChunkView>,
    starts: Set<TilePos>,
    pos: TilePos,
    near: TilePos,
)
    requires
        reached(before, after, starts, pos),
        pos.touches(near),
        tile_in(after, pos) == Tile::Number(0),
        !tile_in(before, pos).is_revealed(),
    ensures
        reached(before, after, starts, near),
{
    let path = choose|path: Seq<TilePos>| #[trigger]
        zero_chain(before, after, starts, path) && path.last() == pos;
    let longer = path.push(near);
    assert forall|i: int| 0 <= i < longer.len() - 1 implies {
        &&& (#[trigger] longer[i]).touches(longer[i + 1])
        &&& tile_in(after, longer[i]) == Tile::Number(0)
        &&& !tile_in(before, longer[i]).is_revealed()
    } by {
        if i < path.len() - 1 {
            assert(path[i].touches(path[i + 1]));
        }
    }
    assert(longer[0] == path[0]);
    assert(zero_chain(before, after, starts, longer));
    assert(longer.last() == near);
}

/// A tile that is reached after mines were placed is reached from before
/// they were placed.
pub proof fn lemma_reached_from_earlier(
    before: Map<ChunkPos, ChunkView>,
    middle: Map<ChunkPos, ChunkView>,
    after: Map<ChunkPos, ChunkView>,
    starts: Set<TilePos>,
    pos: TilePos,
)
    requires
        mines_placed_between(before, middle),
        reached(middle, after, starts, pos),
    ensures
        reached(before, after, starts, pos),
{
    lemma_placing_settles(before, middle);
    let path = choose|path: Seq<TilePos>| #[trigger]
        zero_chain(middle, after, starts, path) && path.last() == pos;
    assert forall|i: int| 0 <= i < path.len() - 1 implies !tile_in(
        before,
        #[trigger] path[i],
    ).is_revealed() by {
        assert(tile_in(middle, path[i]).is_revealed() == tile_in(before, path[i]).is_revealed());
    }
    assert(zero_chain(before, after, starts, path));
}

/// What waited goes on waiting, but for the tile whose turn it was.
pub proof fn lemma_waiting_after(pending: Seq<TilePos>, spread: bool, around: Seq<TilePos>)
    requires
        pending.len() > 0,
    ensures
        forall|pos: TilePos|
            pending.contains(pos) && pos != pending[0] ==> #[trigger] waiting_after(
                pending,
                spread,
                around,
            ).contains(pos),
        forall|pos: TilePos|
            around.contains(pos) && spread ==> #[trigger] waiting_after(
                pending,
                spread,
                around,
            ).contains(pos),
{
    let rest = pending.subrange(1, pending.len() as int);
    let waiting = waiting_after(pending, spread, around);
    assert forall|pos: TilePos| pending.contains(pos) && pos != pending[0] implies waiting.contains(
        pos,
    ) by {
        let i = choose|i: int| 0 <= i < pending.len() && pending[i] == pos;
        assert(rest[i - 1] == pos);
        assert(waiting[i - 1] == pos);
    }
    assert forall|pos: TilePos| around.contains(pos) && spread implies waiting.contains(pos) by {
        let i = choose|i: int| 0 <= i < around.len() && around[i] == pos;
        assert(waiting[rest.len() + i] == pos);
    }
}

/// After a turn, each start is done or still waits.
proof fn lemma_step_starts(
    middle: Map<ChunkPos, ChunkView>,
    after: Map<ChunkPos, ChunkView>,
    starts: Set<TilePos>,
    pending: Seq<TilePos>,
    spread: bool,
    around: Seq<TilePos>,
)
    requires
        pending.len() > 0,
        starts_done(middle, starts, pending),
        one_revealed_between(middle, after, pending[0], spread),
    ensures
        starts_done(after, starts, waiting_after(pending, spread, around)),
{
    reveal(one_revealed_between);
    let turn = pending[0];
    let waiting = waiting_after(pending, spread, around);
    lemma_waiting_after(pending, spread, around);
    assert(tile_in(middle, turn).settles_into(tile_in(after, turn)));
    assert forall|start: TilePos| #[trigger] starts.contains(start) implies waiting.contains(start)
        || (placed_in(after, start.spec_chunk()) && (tile_in(after, start).is_revealed()
        || tile_in(after, start).flagged())) by {
        assert(tile_in(middle, start).settles_into(tile_in(after, start)));
        if start != turn && !pending.contains(start) {
            assert(placed_in(middle, start.spec_chunk()));
        }
    }
}

/// After a turn, each newly revealed tile is as it should be.
proof fn lemma_step_revealed(
    before: Map<ChunkPos, ChunkView>,
    middle: Map<ChunkPos, ChunkView>,
    after: Map<ChunkPos, ChunkView>,
    starts: Set<TilePos>,
    pending: Seq<TilePos>,
    spread: bool,
    around: Seq<TilePos>,
)
    requires
        pending.len() > 0,
        settled_between(before, middle),
        revealed_right(before, middle, starts, pending),
        reached(before, middle, starts, pending[0]),
        decided_in(middle),
        one_revealed_between(middle, after, pending[0], spread),
        forall|near: TilePos| around.contains(near) <==> pending[0].touches(near),
    ensures
        revealed_right(before, after, starts, waiting_after(pending, spread, around)),
{
    reveal(one_revealed_between);
    let turn = pending[0];
    let waiting = waiting_after(pending, spread, around);
    lemma_waiting_after(pending, spread, around);
    assert(tile_in(middle, turn).settles_into(tile_in(after, turn)));
    lemma_reached_kept(before, middle, after, starts, turn);
    assert forall|pos: TilePos| #[trigger] newly_revealed(before, after, pos) implies {
        &&& number_holds(after, pos)
        &&& tile_in(after, pos) == Tile::Number(0) ==> opened_around(after, pos, waiting)
        &&& reached(before, after, starts, pos)
    } by {
        assert(tile_in(middle, pos).settles_into(tile_in(after, pos)));
        if tile_in(middle, pos).is_revealed() {
            assert(newly_revealed(before, middle, pos));
            lemma_reached_kept(before, middle, after, starts, pos);
            if tile_in(middle, pos) is Number {
                lemma_mines_around_kept(middle, after, pos);
            }
            if tile_in(after, pos) == Tile::Number(0) {
                assert(opened_around(middle, pos, pending));
                assert forall|near: TilePos| #[trigger] pos.touches(near) implies tile_in(
                    after,
                    near,
                ).is_revealed() || tile_in(after, near).flagged() || waiting.contains(near) by {
                    assert(tile_in(middle, near).settles_into(tile_in(after, near)));
                }
            }
        } else {
            assert(pos == turn);
        }
    }
}

/// After a turn, each tile that waits is reached.
proof fn lemma_step_pending(
    before: Map<ChunkPos, ChunkView>,
    middle: Map<ChunkPos, ChunkView>,
    after: Map<ChunkPos, ChunkView>,
    starts: Set<TilePos>,
    pending: Seq<TilePos>,
    spread: bool,
    around: Seq<TilePos>,
)
    requires
        pending.len() > 0,
        settled_between(before, middle),
        pending_reached(before, middle, starts, pending),
        one_revealed_between(middle, after, pending[0], spread),
        forall|near: TilePos| around.contains(near) <==> pending[0].touches(near),
    ensures
        pending_reached(before, after, starts, waiting_after(pending, spread, around)),
{
    reveal(one_revealed_between);
    let turn = pending[0];
    let rest = pending.subrange(1, pending.len() as int);
    let waiting = waiting_after(pending, spread, around);
    assert(reached(before, middle, starts, pending[0]));
    lemma_reached_kept(before, middle, after, starts, turn);
    assert(tile_in(before, turn).settles_into(tile_in(middle, turn)));
    assert forall|i: int| 0 <= i < waiting.len() implies reached(
        before,
        after,
        starts,
        #[trigger] waiting[i],
    ) by {
        if i < rest.len() {
            assert(waiting[i] == pending[i + 1]);
            lemma_reached_kept(before, middle, after, starts, pending[i + 1]);
        } else {
            assert(waiting[i] == around[i - rest.len()]);
            assert(around.contains(waiting[i]));
            lemma_reached_extends(before, after, starts, turn, waiting[i]);
        }
    }
}

/// After a turn, each chunk that was not reached is as it was.
proof fn lemma_step_chunks(
    before: Map<ChunkPos, ChunkView>,
    middle: Map<ChunkPos, ChunkView>,
    after: Map<ChunkPos, ChunkView>,
    starts: Set<TilePos>,
    turn: TilePos,
    spread: bool,
)
    requires
        settled_between(before, middle),
        chunks_kept(before, middle, starts),
        reached(before, middle, starts, turn),
        one_revealed_between(middle, after, turn, spread),
    ensures
        chunks_kept(before, after, starts),
{
    reveal(one_revealed_between);
    lemma_reached_kept(before, middle, after, starts, turn);
    assert(tile_in(before, turn).settles_into(tile_in(middle, turn)));
    assert forall|chunk: ChunkPos| !chunk_reached(before, after, starts, chunk) implies (
    #[trigger] after.contains_key(chunk) == before.contains_key(chunk) && placed_in(after, chunk)
        == placed_in(before, chunk)) by {
        // what was reached stays reached
        if chunk_reached(before, middle, starts, chunk) {
            if exists|start: TilePos|
                starts.contains(start) && #[trigger] start.spec_chunk() == chunk {
            } else {
                let pos = choose|pos: TilePos|
                    newly_revealed(before, middle, pos) && tile_in(middle, pos) is Number
                        && #[trigger] chunk_around(pos, chunk);
                assert(tile_in(middle, pos).settles_into(tile_in(after, pos)));
                assert(newly_revealed(before, after, pos));
            }
        }
        // the chunk of the tile whose turn it was is reached
        if chunk == turn.spec_chunk() {
            let path = choose|path: Seq<TilePos>| #[trigger]
                zero_chain(before, after, starts, path) && path.last() == turn;
            if path.len() == 1 {
                assert(starts.contains(turn));
            } else {
                let zero = path[path.len() - 2];
                assert(zero.touches(path[path.len() - 2 + 1]));
                assert(newly_revealed(before, after, zero));
                assert(chunk_around(zero, chunk));
            }
        }
        if chunk_around(turn, chunk) && newly_revealed(middle, after, turn) && tile_in(
            after,
            turn,
        ) is Number {
            assert(newly_revealed(before, after, turn));
        }
    }
}

/// One turn of revealing: the first of the waiting tiles is revealed alone,
/// and where it became a zero the tiles around it wait behind the others.
pub proof fn lemma_flood_step(
    before: Map<ChunkPos, ChunkView>,
    middle: Map<ChunkPos, ChunkView>,
    after: Map<ChunkPos, ChunkView>,
    starts: Set<TilePos>,
    pending: Seq<TilePos>,
    spread: bool,
    around: Seq<TilePos>,
)
    requires
        pending.len() > 0,
        flooded_between(before, middle, starts, pending),
        decided_in(middle),
        one_revealed_between(middle, after, pending[0], spread),
        forall|near: TilePos| around.contains(near) <==> pending[0].touches(near),
    ensures
        flooded_between(before, after, starts, waiting_after(pending, spread, around)),
{
    reveal(flooded_between);
    reveal(one_revealed_between);
    lemma_settled_twice(before, middle, after);
    assert(reached(before, middle, starts, pending[0]));
    lemma_step_starts(middle, after, starts, pending, spread, around);
    lemma_step_revealed(before, middle, after, starts, pending, spread, around);
    lemma_step_pending(before, middle, after, starts, pending, spread, around);
    lemma_step_chunks(before, middle, after, starts, pending[0], spread);
}

/// Before anything is revealed, every one of `starts` waits.
pub proof fn lemma_flood_begins(chunks: Map<ChunkPos, ChunkView>, starts: Seq<TilePos>)
    ensures
        flooded_between(chunks, chunks, starts.to_set(), starts),
{
    reveal(flooded_between);
    assert forall|i: int| 0 <= i < starts.len() implies reached(
        chunks,
        chunks,
        starts.to_set(),
        #[trigger] starts[i],
    ) by {
        let path = seq![starts[i]];
        assert(path[0] == starts[i]);
        assert(starts.contains(starts[i]));
        assert(zero_chain(chunks, chunks, starts.to_set(), path));
        assert(path.last() == starts[i]);
    }
}

/// Once revealing is done, the mines of the chunk of each start are placed.
pub proof fn lemma_flood_places_starts(
    before: Map<ChunkPos, ChunkView>,
    after: Map<ChunkPos, ChunkView>,
    starts: Set<TilePos>,
)
    requires
        flooded_between(before, after, starts, Seq::empty()),
    ensures
        forall|start: TilePos| #[trigger]
            starts.contains(start) ==> placed_in(after, start.spec_chunk()) && (tile_in(
                after,
                start,
            ).is_revealed() || tile_in(after, start).flagged()),
{
    reveal(flooded_between);
    assert forall|start: TilePos| #[trigger] starts.contains(start) implies placed_in(
        after,
        start.spec_chunk(),
    ) && (tile_in(after, start).is_revealed() || tile_in(after, start).flagged()) by {
        assert(!Seq::<TilePos>::empty().contains(start));
    }
}

/// Revealing after mines were placed in chunks of `starts` is revealing
/// from before they were placed.
pub proof fn lemma_flood_after_placing(
    before: Map<ChunkPos, ChunkView>,
    middle: Map<ChunkPos, ChunkView>,
    after: Map<ChunkPos, ChunkView>,
    starts: Set<TilePos>,
    pending: Seq<TilePos>,
)
    requires
        mines_placed_between(before, middle),
        forall|chunk: ChunkPos|
            (#[trigger] middle.contains_key(chunk) != before.contains_key(chunk) || placed_in(
                middle,
                chunk,
            ) != placed_in(before, chunk)) ==> exists|start: TilePos|
                starts.contains(start) && #[trigger] start.spec_chunk() == chunk,
        flooded_between(middle, after, starts, pending),
    ensures
        flooded_between(before, after, starts, pending),
{
    reveal(flooded_between);
    lemma_placing_settles(before, middle);
    lemma_settled_twice(before, middle, after);
    assert forall|pos: TilePos| #[trigger] newly_revealed(before, after, pos) implies {
        &&& number_holds(after, pos)
        &&& tile_in(after, pos) == Tile::Number(0) ==> opened_around(after, pos, pending)
        &&& reached(before, after, starts, pos)
    } by {
        assert(tile_in(middle, pos).is_revealed() == tile_in(before, pos).is_revealed());
        assert(newly_revealed(middle, after, pos));
        lemma_reached_from_earlier(before, middle, after, starts, pos);
    }
    assert forall|i: int| 0 <= i < pending.len() implies reached(
        before,
        after,
        starts,
        #[trigger] pending[i],
    ) by {
        lemma_reached_from_earlier(before, middle, after, starts, pending[i]);
    }
    assert forall|chunk: ChunkPos| !chunk_reached(before, after, starts, chunk) implies (
    #[trigger] after.contains_key(chunk) == before.contains_key(chunk) && placed_in(after, chunk)
        == placed_in(before, chunk)) by {
        if chunk_reached(middle, after, starts, chunk) {
            let pos = choose|pos: TilePos|
                newly_revealed(middle, after, pos) && tile_in(after, pos) is Number
                    && #[trigger] chunk_around(pos, chunk);
            assert(tile_in(middle, pos).is_revealed() == tile_in(before, pos).is_revealed());
            assert(newly_revealed(before, after, pos));
        }
        assert(middle.contains_key(chunk) == before.contains_key(chunk));
    }
}

/// Once revealing is done, no undecided tile is left beside a newly
/// revealed zero: every tile around one is revealed, or is flagged and
/// decided.
pub proof fn lemma_flood_leaves_zeros_open(
    before: Map<ChunkPos, ChunkView>,
    after: Map<ChunkPos, ChunkView>,
    starts: Set<TilePos>,
    zero: TilePos,
    near: TilePos,
)
    requires
        flooded_between(before, after, starts, Seq::empty()),
        decided_in(after),
        newly_revealed(before, after, zero),
        tile_in(after, zero) == Tile::Number(0),
        zero.touches(near),
    ensures
        tile_in(after, near).is_revealed() || tile_in(after, near).flagged(),
        !tile_in(after, near).undecided(),
        !tile_in(after, near).holds_mine(),
{
    reveal(flooded_between);
    assert(number_holds(after, zero));
    lemma_no_mines_around(after, zero, near);
    assert(opened_around(after, zero, Seq::empty()));
    assert(!Seq::<TilePos>::empty().contains(near));
    assert(placed_in(after, near.spec_chunk()));
}

/// The revealed positions are finitely many, at most as many as there are
/// positions.
pub proof fn lemma_revealed_finite(chunks: Map<ChunkPos, ChunkView>)
    ensures
        revealed_codes(chunks).finite(),
        covered_count(chunks) >= 0,
{
    let all = vstd::set_lib::set_int_range(0, 0x1_0000_0000_0000_0000);
    vstd::set_lib::lemma_int_range(0, 0x1_0000_0000_0000_0000);
    assert(revealed_codes(chunks).subset_of(all));
    vstd::set_lib::lemma_len_subset(revealed_codes(chunks), all);
}

/// Where no revealed tile is covered again, the count of covered tiles does
/// not grow; where a tile is newly revealed as well, it falls.
pub proof fn lemma_covered_count_falls(
    before: Map<ChunkPos, ChunkView>,
    after: Map<ChunkPos, ChunkView>,
)
    requires
        forall|pos: TilePos|
            tile_in(before, pos).is_revealed() ==> (#[trigger] tile_in(after, pos)).is_revealed(),
    ensures
        covered_count(after) <= covered_count(before),
        (exists|pos: TilePos| #[trigger] newly_revealed(before, after, pos)) ==> covered_count(
            after,
        ) < covered_count(before),
{
    lemma_revealed_finite(before);
    lemma_revealed_finite(after);
    assert forall|code: int| revealed_codes(before).contains(code) implies revealed_codes(
        after,
    ).contains(code) by {
        let pos = choose|pos: TilePos|
            #[trigger] pos_code(pos) == code && tile_in(before, pos).is_revealed();
        assert(tile_in(after, pos).is_revealed());
    }
    vstd::set_lib::lemma_len_subset(revealed_codes(before), revealed_codes(after));
    if exists|pos: TilePos| #[trigger] newly_revealed(before, after, pos) {
        let pos = choose|pos: TilePos| #[trigger] newly_revealed(before, after, pos);
        let code = pos_code(pos);
        assert(revealed_codes(after).contains(code));
        assert(!revealed_codes(before).contains(code)) by {
            if revealed_codes(before).contains(code) {
                let other = choose|other: TilePos|
                    #[trigger] pos_code(other) == code && tile_in(before, other).is_revealed();
                assert(other == pos);
            }
        }
        let more = revealed_codes(before).insert(code);
        assert(more.subset_of(revealed_codes(after)));
        vstd::set_lib::lemma_len_subset(more, revealed_codes(after));
    }
}

/// A turn of revealing does not raise the number of covered tiles, and
/// lowers it where the tiles around are to be revealed next.
pub proof fn lemma_turn_counts(
    middle: Map<ChunkPos, ChunkView>,
    after: Map<ChunkPos, ChunkView>,
    turn: TilePos,
    spread: bool,
)
    requires
        one_revealed_between(middle, after, turn, spread),
    ensures
        0 <= covered_count(after) <= covered_count(middle),
        spread ==> covered_count(after) < covered_count(middle),
{
    reveal(one_revealed_between);
    lemma_revealed_finite(after);
    assert forall|pos: TilePos| tile_in(middle, pos).is_revealed() implies (#[trigger] tile_in(
        after,
        pos,
    )).is_revealed() by {
        assert(tile_in(middle, pos).settles_into(tile_in(after, pos)));
    }
    lemma_covered_count_falls(middle, after);
    if spread {
        assert(newly_revealed(middle, after, turn));
    }
}

} // verus!
