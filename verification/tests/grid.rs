use infinite_minesweeper::chunk::Chunk;
use infinite_minesweeper::grid::{chunk_key, chunk_of_key, Grid};
use infinite_minesweeper::pos::{ChunkPos, TilePos};
use infinite_minesweeper::tile::{FlagState, HiddenState, Tile};

fn untouched() -> Tile {
    Tile::Covered(FlagState::Blank, HiddenState::Unknown)
}

#[test]
fn new_grid_has_no_chunks_and_reads_create_none() {
    let grid = Grid::new();
    assert!(grid.get_chunk(ChunkPos(0, 0)).is_none());
    assert_eq!(grid.get_tile(TilePos(5, -9)), untouched());
    assert!(grid.get_chunk(ChunkPos(0, -1)).is_none());
    let grid = Grid::default();
    assert!(grid.get_chunk(ChunkPos(3, 3)).is_none());
}

#[test]
fn set_tile_creates_the_chunk_and_changes_one_tile() {
    let mut grid = Grid::new();
    grid.set_tile(TilePos(-1, 64), Tile::Number(3));
    assert_eq!(grid.get_tile(TilePos(-1, 64)), Tile::Number(3));
    assert_eq!(grid.get_tile(TilePos(-2, 64)), untouched());
    assert_eq!(grid.get_tile(TilePos(-1, 65)), untouched());
    assert_eq!(grid.get_tile(TilePos(63, 64)), untouched());
    let chunk = grid.get_chunk(ChunkPos(-1, 1)).expect("chunk created");
    assert_eq!(chunk.get_tile(TilePos(-1, 64)), Tile::Number(3));
    assert_eq!(chunk.get_tile(TilePos(63, 0)), Tile::Number(3));
    assert!(!chunk.all_mines_placed());
    assert!(grid.get_chunk(ChunkPos(0, 1)).is_none());
}

#[test]
fn get_chunk_mut_fills_in_a_default_chunk() {
    let mut grid = Grid::new();
    {
        let chunk = grid.get_chunk_mut(ChunkPos(2, -3));
        assert!(!chunk.all_mines_placed());
        assert_eq!(chunk.get_tile(TilePos(0, 0)), untouched());
        chunk.set_tile(TilePos(7, 7), Tile::Mine);
    }
    assert_eq!(grid.get_tile(TilePos(2 * 64 + 7, -3 * 64 + 7)), Tile::Mine);
    assert!(grid.get_chunk(ChunkPos(2, -3)).is_some());
}

#[test]
fn chunk_keys_are_distinct() {
    assert_eq!(chunk_key(ChunkPos(i32::MIN, i32::MIN)), 0);
    assert_eq!(chunk_key(ChunkPos(i32::MIN, i32::MIN + 1)), 1);
    assert_eq!(chunk_key(ChunkPos(0, 0)), 0x8000_0000_8000_0000);
    assert_eq!(chunk_key(ChunkPos(i32::MAX, i32::MAX)), u64::MAX);
    assert_ne!(chunk_key(ChunkPos(1, 0)), chunk_key(ChunkPos(0, 1)));
    assert_ne!(chunk_key(ChunkPos(-1, 0)), chunk_key(ChunkPos(0, -1)));
}

#[test]
fn chunks_far_apart_do_not_meet() {
    let mut grid = Grid::new();
    grid.set_tile(TilePos(0, 0), Tile::Number(1));
    grid.set_tile(TilePos(64, 0), Tile::Number(2));
    grid.set_tile(TilePos(0, 64), Tile::Number(3));
    grid.set_tile(TilePos(-64, -64), Tile::Number(4));
    assert_eq!(grid.get_tile(TilePos(0, 0)), Tile::Number(1));
    assert_eq!(grid.get_tile(TilePos(64, 0)), Tile::Number(2));
    assert_eq!(grid.get_tile(TilePos(0, 64)), Tile::Number(3));
    assert_eq!(grid.get_tile(TilePos(-64, -64)), Tile::Number(4));
}

#[test]
fn toggle_flag_on_grid_cycles_and_leaves_revealed_tiles() {
    let mut grid = Grid::new();
    let p = TilePos(100, 200);
    grid.toggle_flag(p);
    assert_eq!(grid.get_tile(p), Tile::Covered(FlagState::Flag, HiddenState::Unknown));
    grid.toggle_flag(p);
    assert_eq!(grid.get_tile(p), Tile::Covered(FlagState::Question, HiddenState::Unknown));
    grid.toggle_flag(p);
    assert_eq!(grid.get_tile(p), untouched());
    grid.set_tile(p, Tile::Number(5));
    grid.toggle_flag(p);
    assert_eq!(grid.get_tile(p), Tile::Number(5));
    grid.set_tile(p, Tile::Mine);
    grid.toggle_flag(p);
    assert_eq!(grid.get_tile(p), Tile::Mine);
}

#[test]
fn placing_mines_decides_every_tile_and_keeps_flags() {
    let mut grid = Grid::new();
    let flagged = TilePos(3, 4);
    let number = TilePos(5, 6);
    grid.toggle_flag(flagged);
    grid.set_tile(number, Tile::Number(2));
    grid.place_mines_in_chunk(ChunkPos(0, 0));
    let chunk = grid.get_chunk(ChunkPos(0, 0)).expect("chunk exists");
    assert!(chunk.all_mines_placed());
    let mut mines = 0;
    for y in 0..64 {
        for x in 0..64 {
            let p = TilePos(x, y);
            match grid.get_tile(p) {
                Tile::Covered(f, h) => {
                    assert_ne!(h, HiddenState::Unknown);
                    if p == flagged {
                        assert_eq!(f, FlagState::Flag);
                    } else {
                        assert_eq!(f, FlagState::Blank);
                    }
                    if h == HiddenState::Mine {
                        mines += 1;
                    }
                }
                tile => {
                    assert_eq!(p, number);
                    assert_eq!(tile, Tile::Number(2));
                }
            }
        }
    }
    // one in five, over 4095 draws: far from none and far from all
    assert!(mines > 400 && mines < 1300, "mines: {}", mines);
    assert!(grid.get_chunk(ChunkPos(1, 0)).is_none());
}

#[test]
fn placing_mines_twice_changes_nothing_the_second_time() {
    let mut grid = Grid::new();
    grid.place_mines_in_chunk(ChunkPos(-4, 9));
    let first: Chunk = grid.get_chunk(ChunkPos(-4, 9)).expect("chunk exists").clone();
    grid.place_mines_in_chunk(ChunkPos(-4, 9));
    let second = grid.get_chunk(ChunkPos(-4, 9)).expect("chunk exists");
    assert_eq!(&first, second);
    assert!(second.all_mines_placed());
}

#[test]
fn chunk_place_mines_is_idempotent_too() {
    let mut chunk = Chunk::default();
    assert!(!chunk.all_mines_placed());
    chunk.place_mines();
    let first = chunk.clone();
    chunk.place_mines();
    assert_eq!(first, chunk);
}

#[test]
fn keys_and_chunk_positions_turn_into_each_other() {
    for &pos in &[
        ChunkPos(0, 0),
        ChunkPos(-1, 1),
        ChunkPos(i32::MIN, i32::MAX),
        ChunkPos(12345, -54321),
    ] {
        assert_eq!(chunk_of_key(chunk_key(pos)), pos);
    }
    assert_eq!(chunk_of_key(0), ChunkPos(i32::MIN, i32::MIN));
    assert_eq!(chunk_of_key(u64::MAX), ChunkPos(i32::MAX, i32::MAX));
    assert_eq!(chunk_of_key(0x8000_0001_7fff_ffff), ChunkPos(1, -1));
}

#[test]
fn chunk_positions_names_each_chunk_once() {
    let mut grid = Grid::new();
    assert!(grid.chunk_positions().is_empty());
    grid.set_tile(TilePos(0, 0), Tile::Mine);
    grid.set_tile(TilePos(1, 1), Tile::Mine);
    grid.set_tile(TilePos(-1, 0), Tile::Mine);
    grid.place_mines_in_chunk(ChunkPos(7, 7));
    let mut positions = grid.chunk_positions();
    positions.sort_by_key(|p| (p.0, p.1));
    assert_eq!(positions, vec![ChunkPos(-1, 0), ChunkPos(0, 0), ChunkPos(7, 7)]);
}

#[test]
fn a_grid_is_fit_for_revealing_until_an_undecided_tile_is_written_where_mines_are_placed() {
    let mut grid = Grid::new();
    assert!(grid.is_wf());
    grid.set_tile(TilePos(3, 3), untouched());
    grid.toggle_flag(TilePos(4, 4));
    assert!(grid.is_wf());
    grid.place_mines_in_chunk(ChunkPos(0, 0));
    grid.place_mines_in_chunk(ChunkPos(-1, -1));
    assert!(grid.is_wf());
    grid.reveal_hidden(TilePos(10, 10));
    assert!(grid.is_wf());
    grid.set_tile(TilePos(3, 3), Tile::Covered(FlagState::Flag, HiddenState::Unknown));
    assert!(!grid.is_wf());
    grid.set_tile(TilePos(3, 3), Tile::Covered(FlagState::Flag, HiddenState::Safe));
    assert!(grid.is_wf());
}

#[test]
fn chunk_all_decided_and_bytes() {
    let mut chunk = Chunk::default();
    assert!(!chunk.all_decided());
    chunk.place_mines();
    assert!(chunk.all_decided());
    chunk.set_tile(TilePos(63, 63), untouched());
    assert!(!chunk.all_decided());
    chunk.set_tile(TilePos(0, 0), Tile::Number(7));

    let mut bytes = vec![b'#'];
    chunk.push_bytes(&mut bytes);
    assert_eq!(bytes.len(), 1 + 4096);
    assert_eq!(bytes[0], b'#');
    assert_eq!(bytes[1], b'7');
    assert_eq!(bytes[4096], 0x60);
    let read = Chunk::from_bytes(&bytes, 1, true).expect("bytes of tiles");
    assert_eq!(read, chunk);
    let read = Chunk::from_bytes(&bytes, 1, false).expect("bytes of tiles");
    assert!(!read.all_mines_placed());
    assert_eq!(read.get_tile(TilePos(0, 0)), Tile::Number(7));
    bytes[100] = 0x7f;
    assert!(Chunk::from_bytes(&bytes, 1, true).is_none());
    bytes.push(b' ');
    assert!(Chunk::from_bytes(&bytes, 2, true).is_none());
    bytes[100] = b' ';
    let shifted = Chunk::from_bytes(&bytes, 2, true).expect("bytes of tiles");
    assert_eq!(shifted.get_tile(TilePos(63, 63)), Tile::Number(0));
}
