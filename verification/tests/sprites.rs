use infinite_minesweeper::sprites::{
    bg_sprite_coords, clamp_target_dimensions, fg_sprite_coords, MIN_TARGET_SIZE,
};
use infinite_minesweeper::tile::{FlagState, HiddenState, Tile};

#[test]
fn target_dimensions_are_raised_to_the_minimum() {
    assert_eq!(MIN_TARGET_SIZE, 10);
    assert_eq!(clamp_target_dimensions((0, 0)), (10, 10));
    assert_eq!(clamp_target_dimensions((9, 11)), (10, 11));
    assert_eq!(clamp_target_dimensions((10, 10)), (10, 10));
    assert_eq!(clamp_target_dimensions((800, 3)), (800, 10));
    assert_eq!(clamp_target_dimensions((u32::MAX, u32::MAX)), (u32::MAX, u32::MAX));
}

#[test]
fn background_sprites() {
    assert_eq!(bg_sprite_coords(Tile::Covered(FlagState::Blank, HiddenState::Unknown)), [1, 2]);
    assert_eq!(bg_sprite_coords(Tile::Covered(FlagState::Flag, HiddenState::Mine)), [1, 2]);
    assert_eq!(bg_sprite_coords(Tile::Number(0)), [0, 2]);
    assert_eq!(bg_sprite_coords(Tile::Number(8)), [0, 2]);
    assert_eq!(bg_sprite_coords(Tile::Mine), [0, 2]);
}

#[test]
fn foreground_sprites() {
    assert_eq!(fg_sprite_coords(Tile::Covered(FlagState::Blank, HiddenState::Mine)), None);
    assert_eq!(fg_sprite_coords(Tile::Covered(FlagState::Flag, HiddenState::Safe)), Some([0, 1]));
    assert_eq!(
        fg_sprite_coords(Tile::Covered(FlagState::Question, HiddenState::Unknown)),
        Some([1, 1])
    );
    assert_eq!(fg_sprite_coords(Tile::Number(0)), None);
    assert_eq!(fg_sprite_coords(Tile::Number(1)), Some([0, 0]));
    assert_eq!(fg_sprite_coords(Tile::Number(8)), Some([7, 0]));
    assert_eq!(fg_sprite_coords(Tile::Mine), Some([2, 1]));
}

use infinite_minesweeper::grid::Grid;
use infinite_minesweeper::pos::{ChunkPos, TilePos};
use infinite_minesweeper::sprites::{
    push_chunk_attrs, push_tile_attrs, visible_chunks, visible_tile_attrs, TileAttr,
};

fn pairs(attrs: &[TileAttr]) -> Vec<([i32; 2], [u32; 2])> {
    attrs.iter().map(|a| (a.tile_coords, a.sprite_coords)).collect()
}

#[test]
fn a_tile_is_drawn_as_background_and_foreground() {
    let attr = TileAttr::new([3, -4], [5, 6]);
    assert_eq!(attr.tile_coords, [3, -4]);
    assert_eq!(attr.sprite_coords, [5, 6]);
    let mut out = Vec::new();
    push_tile_attrs(&mut out, TilePos(7, -8), Tile::Number(0));
    push_tile_attrs(&mut out, TilePos(1, 2), Tile::Number(3));
    push_tile_attrs(&mut out, TilePos(0, 0), Tile::Covered(FlagState::Flag, HiddenState::Safe));
    assert_eq!(
        pairs(&out),
        vec![
            ([7, -8], [0, 2]),
            ([1, 2], [0, 2]),
            ([1, 2], [2, 0]),
            ([0, 0], [1, 2]),
            ([0, 0], [0, 1]),
        ]
    );
}

#[test]
fn a_chunk_is_drawn_row_by_row_at_its_place() {
    let mut grid = Grid::new();
    grid.set_tile(TilePos(-64, 64), Tile::Mine);
    grid.set_tile(TilePos(-63, 64), Tile::Number(2));
    grid.set_tile(TilePos(-64, 65), Tile::Covered(FlagState::Question, HiddenState::Unknown));
    let mut out = Vec::new();
    push_chunk_attrs(&grid, ChunkPos(-1, 1), &mut out);
    assert_eq!(out.len(), 4096 + 3);
    let drawn = pairs(&out);
    assert_eq!(drawn[0], ([-64, 64], [0, 2]));
    assert_eq!(drawn[1], ([-64, 64], [2, 1]));
    assert_eq!(drawn[2], ([-63, 64], [0, 2]));
    assert_eq!(drawn[3], ([-63, 64], [1, 0]));
    assert_eq!(drawn[4], ([-62, 64], [1, 2]));
    assert_eq!(drawn[4 + 62], ([-64, 65], [1, 2]));
    assert_eq!(drawn[4 + 63], ([-64, 65], [1, 1]));
    assert_eq!(drawn[4096 + 2], ([-1, 127], [1, 2]));
    // a chunk that does not exist is drawn covered, and is not created
    let mut out = Vec::new();
    push_chunk_attrs(&grid, ChunkPos(4, 4), &mut out);
    assert_eq!(out.len(), 4096);
    assert!(pairs(&out).iter().all(|&(_, sprite)| sprite == [1, 2]));
    assert_eq!(out[0].tile_coords, [256, 256]);
    assert_eq!(out[4095].tile_coords, [319, 319]);
    assert!(grid.get_chunk(ChunkPos(4, 4)).is_none());
}

#[test]
fn what_is_in_sight_is_widened_by_one_tile() {
    assert_eq!(
        visible_chunks(TilePos(0, 0), TilePos(63, 63)),
        (ChunkPos(-1, -1), ChunkPos(1, 1))
    );
    assert_eq!(
        visible_chunks(TilePos(1, 65), TilePos(62, 126)),
        (ChunkPos(0, 1), ChunkPos(0, 1))
    );
    assert_eq!(
        visible_chunks(TilePos(i32::MIN, i32::MIN), TilePos(i32::MAX, i32::MAX)),
        (ChunkPos(-33554432, -33554432), ChunkPos(33554431, 33554431))
    );
}

#[test]
fn chunks_in_sight_are_drawn_row_by_row() {
    let mut grid = Grid::new();
    grid.set_tile(TilePos(64, 0), Tile::Mine);
    let attrs = visible_tile_attrs(&grid, ChunkPos(0, 0), ChunkPos(1, 1));
    assert_eq!(attrs.len(), 4 * 4096 + 1);
    assert_eq!(attrs[0].tile_coords, [0, 0]);
    assert_eq!(attrs[4096].tile_coords, [64, 0]);
    assert_eq!(attrs[4096].sprite_coords, [0, 2]);
    assert_eq!(attrs[4097].tile_coords, [64, 0]);
    assert_eq!(attrs[4097].sprite_coords, [2, 1]);
    assert_eq!(attrs[2 * 4096 + 1].tile_coords, [0, 64]);
    assert_eq!(attrs[3 * 4096 + 1].tile_coords, [64, 64]);
    assert_eq!(attrs[4 * 4096].tile_coords, [127, 127]);
    assert!(visible_tile_attrs(&grid, ChunkPos(1, 0), ChunkPos(0, 0)).is_empty());
    assert!(visible_tile_attrs(&grid, ChunkPos(0, 1), ChunkPos(0, 0)).is_empty());
    assert!(grid.get_chunk(ChunkPos(0, 0)).is_none());
}
