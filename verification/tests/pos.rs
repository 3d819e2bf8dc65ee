use infinite_minesweeper::chunk::Chunk;
use infinite_minesweeper::pos::{ChunkPos, TilePos, CHUNK_AREA, CHUNK_SIZE, CHUNK_SIZE_LOG_2};

#[test]
fn chunk_constants_agree() {
    assert_eq!(CHUNK_SIZE, 64);
    assert_eq!(1usize << CHUNK_SIZE_LOG_2, CHUNK_SIZE);
    assert_eq!(CHUNK_SIZE * CHUNK_SIZE, CHUNK_AREA);
}

#[test]
fn chunk_of_tile_rounds_toward_negative_infinity() {
    assert_eq!(TilePos(0, 0).chunk(), ChunkPos(0, 0));
    assert_eq!(TilePos(63, 63).chunk(), ChunkPos(0, 0));
    assert_eq!(TilePos(64, 127).chunk(), ChunkPos(1, 1));
    assert_eq!(TilePos(-1, -1).chunk(), ChunkPos(-1, -1));
    assert_eq!(TilePos(-64, -65).chunk(), ChunkPos(-1, -2));
    assert_eq!(TilePos(i32::MIN, i32::MAX).chunk(), ChunkPos(-33554432, 33554431));
}

#[test]
fn index_of_tile_is_row_major_and_in_range() {
    assert_eq!(Chunk::index_of_tile(TilePos(0, 0)), 0);
    assert_eq!(Chunk::index_of_tile(TilePos(1, 0)), 1);
    assert_eq!(Chunk::index_of_tile(TilePos(0, 1)), 64);
    assert_eq!(Chunk::index_of_tile(TilePos(63, 63)), 4095);
    assert_eq!(Chunk::index_of_tile(TilePos(-1, -1)), 4095);
    assert_eq!(Chunk::index_of_tile(TilePos(-64, 5)), 5 * 64);
    for &p in &[TilePos(i32::MIN, i32::MIN), TilePos(i32::MAX, i32::MAX), TilePos(-7, 1000)] {
        assert!(Chunk::index_of_tile(p) < CHUNK_AREA);
    }
}

#[test]
fn index_wraps_by_chunk_size_and_is_distinct_within_a_chunk() {
    let p = TilePos(-130, 77);
    assert_eq!(
        Chunk::index_of_tile(p),
        Chunk::index_of_tile(TilePos(p.0 + 64 * 5, p.1 - 64 * 3))
    );
    let mut seen = vec![false; CHUNK_AREA];
    for y in -128..-64 {
        for x in 64..128 {
            let p = TilePos(x, y);
            assert_eq!(p.chunk(), ChunkPos(1, -2));
            let i = Chunk::index_of_tile(p);
            assert!(!seen[i]);
            seen[i] = true;
        }
    }
    assert!(seen.iter().all(|&s| s));
}

#[test]
fn neighbors_are_the_eight_around_column_by_column() {
    let around = TilePos(10, -5).neighbors();
    assert_eq!(
        around,
        vec![
            TilePos(9, -6),
            TilePos(9, -5),
            TilePos(9, -4),
            TilePos(10, -6),
            TilePos(10, -4),
            TilePos(11, -6),
            TilePos(11, -5),
            TilePos(11, -4),
        ]
    );
}

#[test]
fn neighbors_stop_at_the_edge_of_the_coordinates() {
    let corner = TilePos(i32::MAX, i32::MIN).neighbors();
    assert_eq!(
        corner,
        vec![
            TilePos(i32::MAX - 1, i32::MIN),
            TilePos(i32::MAX - 1, i32::MIN + 1),
            TilePos(i32::MAX, i32::MIN + 1),
        ]
    );
    assert_eq!(TilePos(i32::MIN, 0).neighbors().len(), 5);
}

#[test]
fn default_positions_are_the_origin() {
    assert_eq!(TilePos::default(), TilePos(0, 0));
    assert_eq!(ChunkPos::default(), ChunkPos(0, 0));
}
