use infinite_minesweeper::grid::Grid;
use infinite_minesweeper::hex::{hex_digit, hex_digit_value, parse_hex, push_hex};
use infinite_minesweeper::pos::{ChunkPos, TilePos};
use infinite_minesweeper::save::{
    copy_range, find_first, join_save, split_save, KEY_LEN, RECORD_LEN,
};
use infinite_minesweeper::tile::{FlagState, HiddenState, Tile};

fn same_chunk(a: &Grid, b: &Grid, chunk: ChunkPos) {
    match (a.get_chunk(chunk), b.get_chunk(chunk)) {
        (Some(x), Some(y)) => assert_eq!(x, y),
        (None, None) => {}
        _ => panic!("chunk {:?} is in one grid only", chunk),
    }
}

#[test]
fn hex_digits_are_lower_case() {
    assert_eq!(hex_digit(0), b'0');
    assert_eq!(hex_digit(9), b'9');
    assert_eq!(hex_digit(10), b'a');
    assert_eq!(hex_digit(15), b'f');
    assert_eq!(hex_digit_value(b'0'), Some(0));
    assert_eq!(hex_digit_value(b'f'), Some(15));
    assert_eq!(hex_digit_value(b'a'), Some(10));
    assert_eq!(hex_digit_value(b'g'), None);
    assert_eq!(hex_digit_value(b'A'), None);
    assert_eq!(hex_digit_value(b' '), None);
}

#[test]
fn push_hex_writes_a_fixed_number_of_digits() {
    let mut out = vec![b'x'];
    push_hex(&mut out, 0xff, 2);
    assert_eq!(out, b"xff".to_vec());
    push_hex(&mut out, 0x1234_5678_9abc_def0, 16);
    assert_eq!(out, b"xff123456789abcdef0".to_vec());
    let mut out = Vec::new();
    push_hex(&mut out, 5, 4);
    assert_eq!(out, b"0005".to_vec());
    push_hex(&mut out, 0xabcd, 2);
    assert_eq!(out, b"0005cd".to_vec());
    push_hex(&mut out, 7, 0);
    assert_eq!(out, b"0005cd".to_vec());
}

#[test]
fn parse_hex_reads_sixteen_digits() {
    let text = b"..ffffffffffffffff0000000000000010".to_vec();
    assert_eq!(parse_hex(&text, 2), Some(u64::MAX));
    assert_eq!(parse_hex(&text, 18), Some(16));
    assert_eq!(parse_hex(&text, 3), Some(0xffff_ffff_ffff_fff0));
    assert_eq!(parse_hex(&text, 0), None);
    assert_eq!(parse_hex(&b"00000000000000G0".to_vec(), 0), None);
    assert_eq!(parse_hex(&b"00000000000000F0".to_vec(), 0), None);
}

#[test]
fn an_empty_grid_is_an_empty_text() {
    let grid = Grid::new();
    assert!(grid.to_text().is_empty());
    let read = Grid::from_text(&Vec::new()).expect("empty text");
    assert!(read.chunk_positions().is_empty());
    let read = Grid::from_text(&b"\n\n\n".to_vec()).expect("empty lines");
    assert!(read.chunk_positions().is_empty());
}

#[test]
fn the_text_of_one_chunk_is_exact() {
    let mut grid = Grid::new();
    grid.set_tile(TilePos(0, 0), Tile::Number(3));
    grid.set_tile(TilePos(1, 0), Tile::Mine);
    grid.set_tile(TilePos(0, 1), Tile::Covered(FlagState::Flag, HiddenState::Mine));
    let text = grid.to_text();
    assert_eq!(KEY_LEN, 16);
    assert_eq!(RECORD_LEN, 16 + 1 + 64 * 64);
    assert_eq!(text.len(), RECORD_LEN + 1);
    assert_eq!(&text[..17], b"8000000080000000-");
    assert_eq!(text[17], b'3');
    assert_eq!(text[18], b'!');
    assert_eq!(text[19], b'`');
    assert_eq!(text[17 + 64], 0x66);
    assert!(text[17 + 65..RECORD_LEN].iter().all(|&b| b == b'`'));
    assert_eq!(text[RECORD_LEN], b'\n');
}

#[test]
fn writing_and_reading_gives_the_grid_back() {
    let mut grid = Grid::new();
    for y in 0..64 {
        for x in 0..64 {
            grid.set_tile(TilePos(x, y), Tile::Covered(FlagState::Blank, HiddenState::Safe));
        }
    }
    for x in 10..=20 {
        grid.set_tile(TilePos(x, 10), Tile::Covered(FlagState::Blank, HiddenState::Mine));
        grid.set_tile(TilePos(x, 20), Tile::Covered(FlagState::Blank, HiddenState::Mine));
        grid.set_tile(TilePos(10, x), Tile::Covered(FlagState::Blank, HiddenState::Mine));
        grid.set_tile(TilePos(20, x), Tile::Covered(FlagState::Blank, HiddenState::Mine));
    }
    grid.reveal_hidden(TilePos(15, 15));
    grid.toggle_flag(TilePos(10, 10));
    grid.toggle_flag(TilePos(-70, 300));
    grid.toggle_flag(TilePos(-70, 300));
    grid.place_mines_in_chunk(ChunkPos(5, -5));
    grid.reveal_at(TilePos(i32::MIN, i32::MAX));

    let text = grid.to_text();
    let read = Grid::from_text(&text).expect("text of a grid");
    let mut positions = grid.chunk_positions();
    let mut read_positions = read.chunk_positions();
    positions.sort_by_key(|p| (p.0, p.1));
    read_positions.sort_by_key(|p| (p.0, p.1));
    assert_eq!(positions, read_positions);
    assert!(positions.contains(&ChunkPos(0, 0)));
    assert!(positions.contains(&ChunkPos(-2, 4)));
    assert!(positions.contains(&ChunkPos(5, -5)));
    assert!(positions.contains(&ChunkPos(-33554432, 33554431)));
    for &chunk in &positions {
        same_chunk(&grid, &read, chunk);
    }
    assert_eq!(read.get_tile(TilePos(15, 15)), Tile::Number(0));
    assert_eq!(read.get_tile(TilePos(11, 11)), Tile::Number(5));
    assert_eq!(
        read.get_tile(TilePos(10, 10)),
        Tile::Covered(FlagState::Flag, HiddenState::Mine)
    );
    assert_eq!(
        read.get_tile(TilePos(-70, 300)),
        Tile::Covered(FlagState::Question, HiddenState::Unknown)
    );
    assert!(read.get_chunk(ChunkPos(5, -5)).expect("chunk").all_mines_placed());
    assert!(!read.get_chunk(ChunkPos(-2, 4)).expect("chunk").all_mines_placed());
    // and what was read is written as it was, chunk by chunk
    let again = Grid::from_text(&read.to_text()).expect("text of a grid");
    for &chunk in &positions {
        same_chunk(&grid, &again, chunk);
    }
}

fn one_chunk_text() -> Vec<u8> {
    let mut grid = Grid::new();
    grid.set_tile(TilePos(64, -64), Tile::Number(1));
    grid.to_text()
}

#[test]
fn reading_takes_empty_lines_and_a_missing_last_line_feed() {
    let text = one_chunk_text();
    let mut padded = b"\n\n".to_vec();
    padded.extend_from_slice(&text);
    padded.extend_from_slice(b"\n\n");
    let read = Grid::from_text(&padded).expect("empty lines are skipped");
    assert_eq!(read.get_tile(TilePos(64, -64)), Tile::Number(1));
    let cut = text[..RECORD_LEN].to_vec();
    let read = Grid::from_text(&cut).expect("the last line feed may be missing");
    assert_eq!(read.get_tile(TilePos(64, -64)), Tile::Number(1));
    assert_eq!(read.chunk_positions(), vec![ChunkPos(1, -1)]);
}

#[test]
fn reading_refuses_what_is_no_text_of_a_grid() {
    let text = one_chunk_text();
    // too short
    assert!(Grid::from_text(&text[..RECORD_LEN - 1].to_vec()).is_none());
    assert!(Grid::from_text(&b"8000000080000000-".to_vec()).is_none());
    // a position that is no hexadecimal number
    let mut bad = text.clone();
    bad[3] = b'x';
    assert!(Grid::from_text(&bad).is_none());
    let mut bad = text.clone();
    bad[0] = b'F';
    assert!(Grid::from_text(&bad).is_none());
    // a mark that is neither + nor -
    let mut bad = text.clone();
    bad[16] = b'*';
    assert!(Grid::from_text(&bad).is_none());
    // a byte that stands for no tile
    let mut bad = text.clone();
    bad[100] = b'0';
    assert!(Grid::from_text(&bad).is_none());
    let mut bad = text.clone();
    bad[RECORD_LEN - 1] = 0x6b;
    assert!(Grid::from_text(&bad).is_none());
    // two lines without a line feed between them
    let mut bad = text[..RECORD_LEN].to_vec();
    bad.extend_from_slice(&text);
    assert!(Grid::from_text(&bad).is_none());
    // a mark is read
    let mut good = text.clone();
    good[16] = b'+';
    let read = Grid::from_text(&good).expect("text of a grid");
    assert!(read.get_chunk(ChunkPos(1, -1)).expect("chunk").all_mines_placed());
}

#[test]
fn of_two_lines_for_one_chunk_the_later_counts() {
    let mut first = Grid::new();
    first.set_tile(TilePos(0, 0), Tile::Number(1));
    let mut second = Grid::new();
    second.set_tile(TilePos(0, 0), Tile::Number(2));
    let mut text = first.to_text();
    text.extend_from_slice(&second.to_text());
    let read = Grid::from_text(&text).expect("text of a grid");
    assert_eq!(read.get_tile(TilePos(0, 0)), Tile::Number(2));
    assert_eq!(read.chunk_positions().len(), 1);
}

#[test]
fn a_saved_game_is_joined_and_split() {
    let grid_text = one_chunk_text();
    let text = join_save(&b"1.5".to_vec(), &b"-2".to_vec(), &grid_text);
    assert_eq!(&text[..9], b"1.5,-2*\n\n");
    assert_eq!(&text[9..], &grid_text[..]);
    let parts = split_save(&text).expect("text of a saved game");
    assert_eq!(parts.center_x, b"1.5".to_vec());
    assert_eq!(parts.center_y, b"-2".to_vec());
    assert_eq!(&parts.grid[..2], b"\n\n");
    assert_eq!(&parts.grid[2..], &grid_text[..]);
    let read = Grid::from_text(&parts.grid).expect("text of a grid");
    assert_eq!(read.get_tile(TilePos(64, -64)), Tile::Number(1));

    let text = join_save(&Vec::new(), &Vec::new(), &Vec::new());
    assert_eq!(text, b",*\n\n".to_vec());
    let parts = split_save(&text).expect("text of a saved game");
    assert!(parts.center_x.is_empty());
    assert!(parts.center_y.is_empty());
    assert_eq!(parts.grid, b"\n\n".to_vec());
}

#[test]
fn splitting_goes_by_the_first_star_and_the_first_comma() {
    let parts = split_save(&b" 3 , 4,5*a*b,c".to_vec()).expect("text of a saved game");
    assert_eq!(parts.center_x, b" 3 ".to_vec());
    assert_eq!(parts.center_y, b" 4,5".to_vec());
    assert_eq!(parts.grid, b"a*b,c".to_vec());
    assert!(split_save(&b"1,2".to_vec()).is_none());
    assert!(split_save(&b"12*3,4".to_vec()).is_none());
    assert!(split_save(&b"*".to_vec()).is_none());
    assert!(split_save(&Vec::new()).is_none());
    let parts = split_save(&b",*".to_vec()).expect("text of a saved game");
    assert!(parts.center_x.is_empty() && parts.center_y.is_empty() && parts.grid.is_empty());
}

#[test]
fn find_first_and_copy_range() {
    let text = b"abcabc".to_vec();
    assert_eq!(find_first(&text, b'b', 6), 1);
    assert_eq!(find_first(&text, b'c', 2), 2);
    assert_eq!(find_first(&text, b'z', 6), 6);
    assert_eq!(find_first(&text, b'a', 0), 0);
    assert_eq!(copy_range(&text, 1, 4), b"bca".to_vec());
    assert_eq!(copy_range(&text, 3, 3), Vec::<u8>::new());
    assert_eq!(copy_range(&text, 0, 6), text);
}
