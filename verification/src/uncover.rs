//! Revealing tiles: counting the mines around a tile, opening a covered
//! tile and the empty region around it, and opening the tiles around a
//! number whose flags are all set.

use crate::flood::{
    lemma_assumed_mines_kept, lemma_flood_after_placing, lemma_flood_begins,
    lemma_flood_places_starts, lemma_flood_step, lemma_mines_placed_twice, lemma_placing_settles,
    lemma_revealed_finite, lemma_settled_twice, lemma_turn_counts,
};
use crate::grid::{Grid, mines_placed_between, placed_in, tile_in};
use crate::pos::{ChunkPos, TilePos};
use crate::rules::{
    assumed_mines_around, chord_between, chunk_around, count_around, covered_count,
    flooded_between, one_revealed_between, settled_between, tiles_around, waiting_after,
};
use crate::tile::{FlagState, HiddenState, Tile};
use std::collections::VecDeque;
use vstd::prelude::*;

verus! {

impl Grid {
    /// Reveals the tile at `pos` alone, after placing the mines of its
    /// chunk, and tells whether the tiles around it are to be revealed too:
    /// whether it was revealed as a zero.
    pub fn reveal_hidden_one(&mut self, pos: TilePos) -> (spread: bool)
        requires
            old(self).wf(),
        ensures
            final(self).wf(),
            one_revealed_between(old(self)@, final(self)@, pos, spread),
    {
        self.place_mines_in_chunk(pos.chunk());
        let ghost placed = self@;
        proof {
            reveal(one_revealed_between);
            lemma_placing_settles(old(self)@, placed);
        }
        match self.get_tile(pos) {
            Tile::Covered(flag, hidden) => {
                match flag {
                    FlagState::Flag => false,
                    _ => {
                        match hidden {
                            HiddenState::Unknown => false,
                            HiddenState::Safe => {
                                let n = self.count_neighbors(pos, Tile::is_mine);
                                let ghost counted = self@;
                                self.set_tile(pos, Tile::Number(n));
                                proof {
                                    lemma_mines_placed_twice(old(self)@, placed, counted);
                                    lemma_placing_settles(old(self)@, counted);
                                    assert(tile_in(counted, pos) == tile_in(placed, pos));
                                    assert(settled_between(counted, self@));
                                    lemma_settled_twice(old(self)@, counted, self@);
                                    let holds = |tile: Tile| tile.holds_mine();
                                    let told = |tile: Tile| call_ensures(Tile::is_mine, (tile,), true);
                                    assert(Set::new(
                                        |near: TilePos|
                                            pos.touches(near) && holds(tile_in(self@, near)),
                                    ) =~= Set::new(
                                        |near: TilePos|
                                            pos.touches(near) && told(tile_in(counted, near)),
                                    ));
                                }
                                n == 0
                            },
                            HiddenState::Mine => {
                                self.set_tile(pos, Tile::Mine);
                                proof {
                                    assert(settled_between(placed, self@));
                                    lemma_settled_twice(old(self)@, placed, self@);
                                }
                                false
                            },
                        }
                    },
                }
            },
            _ => false,
        }
    }

    /// Reveals each of `starts` as `reveal_hidden` does, and with it the
    /// empty region around it: where a tile is revealed as a zero, the
    /// tiles around it are revealed in turn. The tiles that wait for their
    /// turn are kept in a queue, so that a large region costs no stack.
    pub fn reveal_hidden_each(&mut self, starts: &Vec<TilePos>)
        requires
            old(self).wf(),
        ensures
            final(self).wf(),
            flooded_between(old(self)@, final(self)@, starts@.to_set(), Seq::empty()),
    {
        let mut work: VecDeque<TilePos> = VecDeque::new();
        let mut k: usize = 0;
        while k < starts.len()
            invariant
                0 <= k <= starts.len(),
                work@ == starts@.subrange(0, k as int),
            decreases starts.len() - k,
        {
            work.push_back(starts[k]);
            assert(starts@.subrange(0, k as int).push(starts[k as int]) == starts@.subrange(
                0,
                k + 1,
            ));
            k += 1;
        }
        proof {
            assert(work@ == starts@);
            lemma_flood_begins(self@, starts@);
            lemma_revealed_finite(self@);
        }
        while work.len() > 0
            invariant
                self.wf(),
                flooded_between(old(self)@, self@, starts@.to_set(), work@),
                covered_count(self@) >= 0,
            decreases covered_count(self@), work.len(),
        {
            let ghost middle = self@;
            let ghost pending = work@;
            let turn = work.pop_front().unwrap();
            let spread = self.reveal_hidden_one(turn);
            let around = turn.neighbors();
            proof {
                lemma_flood_step(
                    old(self)@,
                    middle,
                    self@,
                    starts@.to_set(),
                    pending,
                    spread,
                    around@,
                );
                lemma_turn_counts(middle, self@, turn, spread);
            }
            if spread {
                let mut i: usize = 0;
                while i < around.len()
                    invariant
                        0 <= i <= around.len(),
                        work@ == pending.subrange(1, pending.len() as int) + around@.subrange(
                            0,
                            i as int,
                        ),
                    decreases around.len() - i,
                {
                    work.push_back(around[i]);
                    assert(around@.subrange(0, i as int).push(around[i as int])
                        == around@.subrange(0, i + 1));
                    i += 1;
                }
                assert(around@.subrange(0, around.len() as int) == around@);
            }
            assert(work@ == waiting_after(pending, spread, around@));
        }
        assert(work@ == Seq::<TilePos>::empty());
    }

    /// Reveals a hidden tile in the grid, after placing the mines of its
    /// chunk. A tile that is revealed already or carries a flag stays as it
    /// is. A mine is revealed as a mine. A safe tile is revealed as the
    /// number of mines around it, and where that is zero the tiles around
    /// it are revealed in the same way.
    pub fn reveal_hidden(&mut self, pos: TilePos)
        requires
            old(self).wf(),
        ensures
            final(self).wf(),
            flooded_between(old(self)@, final(self)@, set![pos], Seq::empty()),
    {
        let mut starts: Vec<TilePos> = Vec::new();
        starts.push(pos);
        assert(starts@ == seq![pos]);
        assert(starts@.to_set() =~= set![pos]) by {
            assert(starts@[0] == pos);
        }
        self.reveal_hidden_each(&starts);
    }

    /// Reveals hidden tiles adjacent to a known one, if the correct number of
    /// flags have been placed nearby: where the tile at `pos` is a revealed
    /// number, and just as many tiles around it are flags or revealed mines,
    /// each tile around it is revealed as `reveal_hidden` does.
    pub fn reveal_adjacent_safely(&mut self, pos: TilePos)
        requires
            old(self).wf(),
        ensures
            final(self).wf(),
            chord_between(old(self)@, final(self)@, pos),
    {
        match self.get_tile(pos) {
            Tile::Number(n) => {
                let n_flags = self.count_neighbors(pos, Tile::is_assumed_mine);
                let ghost counted = self@;
                proof {
                    lemma_assumed_mines_kept(old(self)@, counted, pos);
                    let assumed = |tile: Tile| tile.assumed_mine();
                    let told = |tile: Tile| call_ensures(Tile::is_assumed_mine, (tile,), true);
                    assert(Set::new(
                        |near: TilePos| pos.touches(near) && assumed(tile_in(counted, near)),
                    ) =~= Set::new(
                        |near: TilePos| pos.touches(near) && told(tile_in(counted, near)),
                    ));
                    assert(n_flags == assumed_mines_around(old(self)@, pos));
                }
                if n_flags == n {
                    let around = pos.neighbors();
                    self.reveal_hidden_each(&around);
                    proof {
                        assert(around@.to_set() =~= tiles_around(pos));
                        assert forall|chunk: ChunkPos|
                            (#[trigger] counted.contains_key(chunk) != old(self)@.contains_key(
                                chunk,
                            ) || placed_in(counted, chunk) != placed_in(old(self)@, chunk))
                            implies exists|start: TilePos|
                            tiles_around(pos).contains(start) && #[trigger] start.spec_chunk()
                                == chunk by {
                            assert(chunk_around(pos, chunk));
                            let near = choose|near: TilePos|
                                pos.touches(near) && #[trigger] near.spec_chunk() == chunk;
                            assert(tiles_around(pos).contains(near));
                        }
                        lemma_flood_after_placing(
                            old(self)@,
                            counted,
                            self@,
                            tiles_around(pos),
                            Seq::empty(),
                        );
                        lemma_flood_places_starts(old(self)@, self@, tiles_around(pos));
                        assert forall|near: TilePos| #[trigger] pos.touches(near) implies placed_in(
                            self@,
                            near.spec_chunk(),
                        ) by {
                            assert(tiles_around(pos).contains(near));
                        }
                    }
                } else {
                    assert forall|near: TilePos| #[trigger] pos.touches(near) implies placed_in(
                        self@,
                        near.spec_chunk(),
                    ) by {
                        assert(placed_in(counted, near.spec_chunk()));
                    }
                }
            },
            _ => (),
        }
    }

    /// Reveals a square, by what it shows: a covered tile as
    /// `reveal_hidden` does, the tiles around a number as
    /// `reveal_adjacent_safely` does, and nothing where a mine is revealed
    /// already.
    pub fn reveal_at(&mut self, pos: TilePos)
        requires
            old(self).wf(),
        ensures
            final(self).wf(),
            match tile_in(old(self)@, pos) {
                Tile::Covered(_, _) => flooded_between(
                    old(self)@,
                    final(self)@,
                    set![pos],
                    Seq::empty(),
                ),
                Tile::Number(_) => chord_between(old(self)@, final(self)@, pos),
                Tile::Mine => final(self)@ == old(self)@,
            },
    {
        match self.get_tile(pos) {
            Tile::Covered(_, _) => self.reveal_hidden(pos),
            Tile::Number(_) => self.reveal_adjacent_safely(pos),
            Tile::Mine => (),
        }
    }

    /// Returns the number of neighboring tiles that satisfy a predicate,
    /// populating chunks with mines as needed: the chunk of every tile
    /// around `pos` has its mines placed before the tile is looked at.
    pub fn count_neighbors<F: Fn(Tile) -> bool>(&mut self, pos: TilePos, predicate: F) -> (count:
        u8)
        requires
            forall|tile: Tile| tile.valid() ==> call_requires(predicate, (tile,)),
            forall|tile: Tile, yes: bool, no: bool|
                call_ensures(predicate, (tile,), yes) && call_ensures(predicate, (tile,), no)
                    ==> yes == no,
        ensures
            count == count_around(
                final(self)@,
                pos,
                |tile: Tile| call_ensures(predicate, (tile,), true),
            ),
            count <= 8,
            forall|near: TilePos| #[trigger]
                pos.touches(near) ==> call_ensures(
                    predicate,
                    (tile_in(final(self)@, near),),
                    true,
                ) || call_ensures(predicate, (tile_in(final(self)@, near),), false),
            mines_placed_between(old(self)@, final(self)@),
            forall|near: TilePos|
                pos.touches(near) ==> placed_in(final(self)@, #[trigger] near.spec_chunk()),
            forall|chunk: ChunkPos|
                !chunk_around(pos, chunk) ==> (#[trigger] final(self)@.contains_key(chunk)
                    == old(self)@.contains_key(chunk) && placed_in(final(self)@, chunk)
                    == placed_in(old(self)@, chunk)),
            old(self).wf() ==> final(self).wf(),
    {
        let around = pos.neighbors();
        let ghost counted = |tile: Tile| call_ensures(predicate, (tile,), true);
        let ghost mut seen: Set<TilePos> = Set::empty();
        let mut count: u8 = 0;
        let mut k: usize = 0;
        while k < around.len()
            invariant
                0 <= k <= around.len() <= 8,
                forall|q: TilePos| around@.contains(q) <==> pos.touches(q),
                forall|i: int, j: int|
                    0 <= i < j < around.len() ==> (#[trigger] around[i]).precedes(
                        #[trigger] around[j],
                    ),
                forall|tile: Tile| tile.valid() ==> call_requires(predicate, (tile,)),
                forall|tile: Tile, yes: bool, no: bool|
                    call_ensures(predicate, (tile,), yes) && call_ensures(predicate, (tile,), no)
                        ==> yes == no,
                counted == (|tile: Tile| call_ensures(predicate, (tile,), true)),
                mines_placed_between(old(self)@, self@),
                old(self).wf() ==> self.wf(),
                forall|i: int|
                    0 <= i < k ==> placed_in(self@, (#[trigger] around[i]).spec_chunk()),
                forall|chunk: ChunkPos|
                    !chunk_around(pos, chunk) ==> (#[trigger] self@.contains_key(chunk) == old(
                        self,
                    )@.contains_key(chunk) && placed_in(self@, chunk) == placed_in(
                        old(self)@,
                        chunk,
                    )),
                forall|i: int|
                    0 <= i < k ==> call_ensures(
                        predicate,
                        (tile_in(self@, #[trigger] around[i]),),
                        true,
                    ) || call_ensures(predicate, (tile_in(self@, around[i]),), false),
                seen.finite(),
                count == seen.len(),
                count <= k,
                forall|q: TilePos|
                    seen.contains(q) <==> (exists|i: int| 0 <= i < k && around[i] == q) && counted(
                        tile_in(self@, q),
                    ),
            decreases around.len() - k,
        {
            let near = around[k];
            let ghost before = self@;
            assert(around@.contains(near));
            self.place_mines_in_chunk(near.chunk());
            proof {
                lemma_mines_placed_twice(old(self)@, before, self@);
                assert forall|i: int| 0 <= i < k implies tile_in(self@, #[trigger] around[i])
                    == tile_in(before, around[i]) by {
                    assert(placed_in(before, around[i].spec_chunk()));
                }
                assert forall|chunk: ChunkPos| !chunk_around(pos, chunk) implies (
                #[trigger] self@.contains_key(chunk) == old(self)@.contains_key(chunk)
                    && placed_in(self@, chunk) == placed_in(old(self)@, chunk)) by {
                    assert(chunk != near.spec_chunk());
                    assert(placed_in(self@, chunk) == placed_in(before, chunk));
                    assert(before.contains_key(chunk) == old(self)@.contains_key(chunk));
                }
            }
            let tile = self.get_tile(near);
            if predicate(tile) {
                proof {
                    assert forall|i: int| 0 <= i < k implies around[i] != near by {
                        assert(around[i].precedes(around[k as int]));
                    }
                    seen = seen.insert(near);
                }
                count += 1;
            }
            k += 1;
        }
        proof {
            assert(seen =~= Set::new(
                |near: TilePos| pos.touches(near) && counted(tile_in(self@, near)),
            )) by {
                assert forall|q: TilePos| pos.touches(q) implies exists|i: int|
                    0 <= i < k && around[i] == q by {
                    assert(around@.contains(q));
                }
            }
            assert forall|near: TilePos| pos.touches(near) implies placed_in(
                self@,
                #[trigger] near.spec_chunk(),
            ) by {
                assert(around@.contains(near));
            }
            assert forall|near: TilePos| #[trigger] pos.touches(near) implies call_ensures(
                predicate,
                (tile_in(self@, near),),
                true,
            ) || call_ensures(predicate, (tile_in(self@, near),), false) by {
                assert(around@.contains(near));
            }
        }
        count
    }
}

} // verus!
