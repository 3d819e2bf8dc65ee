//! The grid as text, for saving.
//!
//! The text holds one line for each chunk, every line ended by a line feed,
//! and empty lines count for nothing. A line is `RECORD_LEN` bytes long:
//! the sixteen hexadecimal digits of the number of the chunk's position,
//! `+` where the mines of the chunk are placed and `-` where not, and one
//! byte for each of its tiles, row by row.

use crate::chunk::{
    all_encodings, all_valid, lemma_tile_bytes_round_trip, tile_bytes, tiles_of_bytes, Chunk,
    ChunkView,
};
use crate::grid::{chunk_key, chunk_of_key, spec_chunk_key, spec_chunk_of_key, Grid};
use crate::hex::{
    all_hex, hex_of, hex_value, lemma_hex_of_digits, lemma_hex_round_trip, lemma_pow16_of_16,
    parse_hex, push_hex,
};
use crate::pos::{ChunkPos, CHUNK_AREA};
use vstd::prelude::*;

verus! {

/// The number of hexadecimal digits that a chunk's position takes.
pub const KEY_LEN: usize = 16;

/// The length of the line of a chunk, without its line feed.
pub const RECORD_LEN: usize = 4113;

/// The byte that ends a line.
pub const LINE_FEED: u8 = 0x0a;

/// The byte that says that the mines of a chunk are placed.
pub const PLACED: u8 = 0x2b;

/// The byte that says that the mines of a chunk are not placed.
pub const NOT_PLACED: u8 = 0x2d;

/// The byte that says whether the mines of a chunk are placed.
pub open spec fn placed_char(placed: bool) -> u8 {
    if placed {
        PLACED
    } else {
        NOT_PLACED
    }
}

/// The line of the chunk at `pos`, without its line feed.
pub open spec fn record_of(pos: ChunkPos, chunk: ChunkView) -> Seq<u8> {
    hex_of(spec_chunk_key(pos) as nat, KEY_LEN as nat) + seq![placed_char(chunk.all_mines_placed)]
        + tile_bytes(chunk.tiles)
}

/// The text of the chunks of `chunks` at the positions `order`, in that
/// order.
pub open spec fn text_of(chunks: Map<ChunkPos, ChunkView>, order: Seq<ChunkPos>) -> Seq<u8>
    decreases order.len(),
{
    if order.len() == 0 {
        Seq::empty()
    } else {
        text_of(chunks, order.drop_last()) + record_of(order.last(), chunks[order.last()])
            + seq![LINE_FEED]
    }
}

/// Whether `line` is the line of a chunk: digits, then a mark, then tiles.
pub open spec fn record_ok(line: Seq<u8>) -> bool {
    &&& line.len() == RECORD_LEN
    &&& all_hex(line.subrange(0, KEY_LEN as int))
    &&& (line[KEY_LEN as int] == PLACED || line[KEY_LEN as int] == NOT_PLACED)
    &&& all_encodings(line.subrange(KEY_LEN + 1, RECORD_LEN as int))
}

/// The position of the chunk that `line` is the line of.
pub open spec fn record_pos(line: Seq<u8>) -> ChunkPos {
    spec_chunk_of_key(hex_value(line.subrange(0, KEY_LEN as int)) as u64)
}

/// What the chunk that `line` is the line of holds.
pub open spec fn record_chunk(line: Seq<u8>) -> ChunkView {
    ChunkView {
        tiles: tiles_of_bytes(line.subrange(KEY_LEN + 1, RECORD_LEN as int)),
        all_mines_placed: line[KEY_LEN as int] == PLACED,
    }
}

/// The chunks that `text` tells of, added to `chunks`; where two lines tell
/// of one chunk, the later one counts. `None` where `text` is no text of a
/// grid: where a line is too short or holds a byte that it may not hold, or
/// where something other than a line feed follows a line.
pub open spec fn parsed(text: Seq<u8>, chunks: Map<ChunkPos, ChunkView>) -> Option<
    Map<ChunkPos, ChunkView>,
>
    decreases text.len(),
{
    if text.len() == 0 {
        Some(chunks)
    } else if text[0] == LINE_FEED {
        parsed(text.skip(1), chunks)
    } else if text.len() < RECORD_LEN {
        None
    } else {
        let line = text.subrange(0, RECORD_LEN as int);
        if !record_ok(line) || (text.len() > RECORD_LEN && text[RECORD_LEN as int] != LINE_FEED) {
            None
        } else {
            parsed(
                text.skip(RECORD_LEN as int),
                chunks.insert(record_pos(line), record_chunk(line)),
            )
        }
    }
}

/// Whether every chunk of `chunks` holds `CHUNK_AREA` tiles that the
/// encoding can carry. The chunks of every grid do.
pub open spec fn valid_chunks(chunks: Map<ChunkPos, ChunkView>) -> bool {
    forall|pos: ChunkPos| #[trigger]
        chunks.contains_key(pos) ==> chunks[pos].tiles.len() == CHUNK_AREA && all_valid(
            chunks[pos].tiles,
        )
}

/// `chunks` with the chunks of `from` at the positions `order` put in, one
/// after the other.
pub open spec fn put_in(
    chunks: Map<ChunkPos, ChunkView>,
    from: Map<ChunkPos, ChunkView>,
    order: Seq<ChunkPos>,
) -> Map<ChunkPos, ChunkView>
    decreases order.len(),
{
    if order.len() == 0 {
        chunks
    } else {
        put_in(chunks.insert(order[0], from[order[0]]), from, order.skip(1))
    }
}

/// The line of a valid chunk is read as the chunk it was written for.
pub proof fn lemma_record_round_trip(pos: ChunkPos, chunk: ChunkView)
    requires
        chunk.tiles.len() == CHUNK_AREA,
        all_valid(chunk.tiles),
    ensures
        record_ok(record_of(pos, chunk)),
        record_pos(record_of(pos, chunk)) == pos,
        record_chunk(record_of(pos, chunk)) == chunk,
        record_of(pos, chunk)[0] != LINE_FEED,
{
    let key = spec_chunk_key(pos);
    let digits = hex_of(key as nat, KEY_LEN as nat);
    let line = record_of(pos, chunk);
    lemma_hex_of_digits(key as nat, KEY_LEN as nat);
    lemma_pow16_of_16();
    lemma_hex_round_trip(key as nat, KEY_LEN as nat);
    lemma_tile_bytes_round_trip(chunk.tiles);
    assert(line.subrange(0, KEY_LEN as int) =~= digits);
    assert(line.subrange(KEY_LEN + 1, RECORD_LEN as int) =~= tile_bytes(chunk.tiles));
    assert(line[KEY_LEN as int] == placed_char(chunk.all_mines_placed));
    assert(line[0] == digits[0]);
    assert(crate::hex::is_hex_char(digits[0]));
}

/// The text of chunks in some order starts with the line of the first.
pub proof fn lemma_text_starts(chunks: Map<ChunkPos, ChunkView>, order: Seq<ChunkPos>)
    requires
        order.len() > 0,
    ensures
        text_of(chunks, order) == record_of(order[0], chunks[order[0]]) + seq![LINE_FEED] + text_of(
            chunks,
            order.skip(1),
        ),
    decreases order.len(),
{
    if order.len() == 1 {
        assert(order.drop_last() =~= Seq::<ChunkPos>::empty());
        assert(order.skip(1) =~= Seq::<ChunkPos>::empty());
        assert(text_of(chunks, order) =~= record_of(order[0], chunks[order[0]]) + seq![LINE_FEED]
            + text_of(chunks, order.skip(1)));
    } else {
        lemma_text_starts(chunks, order.drop_last());
        assert(order.drop_last().skip(1) =~= order.skip(1).drop_last());
        assert(order.drop_last()[0] == order[0]);
        assert(order.skip(1).last() == order.last());
        assert(text_of(chunks, order) =~= record_of(order[0], chunks[order[0]]) + seq![LINE_FEED]
            + text_of(chunks, order.skip(1)));
    }
}

/// Reading the text of valid chunks puts each of them in.
pub proof fn lemma_text_parsed(
    chunks: Map<ChunkPos, ChunkView>,
    order: Seq<ChunkPos>,
    into: Map<ChunkPos, ChunkView>,
)
    requires
        valid_chunks(chunks),
        forall|i: int| 0 <= i < order.len() ==> chunks.contains_key(#[trigger] order[i]),
    ensures
        parsed(text_of(chunks, order), into) == Some(put_in(into, chunks, order)),
    decreases order.len(),
{
    if order.len() > 0 {
        let text = text_of(chunks, order);
        let first = order[0];
        let line = record_of(first, chunks[first]);
        let rest = text_of(chunks, order.skip(1));
        assert(chunks.contains_key(first));
        lemma_text_starts(chunks, order);
        lemma_record_round_trip(first, chunks[first]);
        assert(line.len() == RECORD_LEN);
        assert(text.subrange(0, RECORD_LEN as int) =~= line);
        assert(text[0] == line[0]);
        assert(text[RECORD_LEN as int] == LINE_FEED);
        let after = text.skip(RECORD_LEN as int);
        assert(after[0] == LINE_FEED);
        assert(after.skip(1) =~= rest);
        let more = into.insert(first, chunks[first]);
        assert(parsed(after, more) == parsed(rest, more));
        assert forall|i: int| 0 <= i < order.skip(1).len() implies chunks.contains_key(
            #[trigger] order.skip(1)[i],
        ) by {
            assert(order.skip(1)[i] == order[i + 1]);
        }
        lemma_text_parsed(chunks, order.skip(1), more);
    }
}

/// Putting in the chunks at positions that cover all of them gives just
/// these chunks.
pub proof fn lemma_put_in_all(
    chunks: Map<ChunkPos, ChunkView>,
    order: Seq<ChunkPos>,
    into: Map<ChunkPos, ChunkView>,
)
    ensures
        put_in(into, chunks, order) == Map::new(
            |pos: ChunkPos| into.contains_key(pos) || order.contains(pos),
            |pos: ChunkPos|
                if order.contains(pos) {
                    chunks[pos]
                } else {
                    into[pos]
                },
        ),
    decreases order.len(),
{
    let all = Map::new(
        |pos: ChunkPos| into.contains_key(pos) || order.contains(pos),
        |pos: ChunkPos|
            if order.contains(pos) {
                chunks[pos]
            } else {
                into[pos]
            },
    );
    if order.len() == 0 {
        assert(put_in(into, chunks, order) =~= all);
    } else {
        let more = into.insert(order[0], chunks[order[0]]);
        let rest = order.skip(1);
        lemma_put_in_all(chunks, rest, more);
        assert forall|pos: ChunkPos| order.contains(pos) <==> (pos == order[0] || rest.contains(
            pos,
        )) by {
            if order.contains(pos) {
                let i = choose|i: int| 0 <= i < order.len() && order[i] == pos;
                if i > 0 {
                    assert(rest[i - 1] == pos);
                }
            }
            if rest.contains(pos) {
                let i = choose|i: int| 0 <= i < rest.len() && rest[i] == pos;
                assert(order[i + 1] == pos);
            }
            assert(order[0] == order[0]);
        }
        assert(put_in(into, chunks, order) =~= all);
    }
}

/// Writing a grid and reading the text gives the grid back: the text of the
/// chunks of a grid, in any order that names each of them, is read as just
/// these chunks.
pub proof fn lemma_text_round_trip(chunks: Map<ChunkPos, ChunkView>, order: Seq<ChunkPos>)
    requires
        valid_chunks(chunks),
        order.to_set() == chunks.dom(),
    ensures
        parsed(text_of(chunks, order), Map::empty()) == Some(chunks),
{
    assert forall|i: int| 0 <= i < order.len() implies chunks.contains_key(#[trigger] order[i]) by {
        assert(order.to_set().contains(order[i]));
    }
    lemma_text_parsed(chunks, order, Map::empty());
    lemma_put_in_all(chunks, order, Map::empty());
    assert(put_in(Map::empty(), chunks, order) =~= chunks) by {
        assert forall|pos: ChunkPos| order.contains(pos) <==> chunks.contains_key(pos) by {
            assert(order.to_set().contains(pos) == chunks.dom().contains(pos));
        }
    }
}

/// The byte between the two coordinates of the camera's center.
pub const COMMA: u8 = 0x2c;

/// The byte that ends the camera's center.
pub const STAR: u8 = 0x2a;

/// The text of a saved game: the two coordinates of the camera's center
/// with a comma between them, a star, an empty line, and the text of the
/// grid.
pub open spec fn save_text_of(center_x: Seq<u8>, center_y: Seq<u8>, grid: Seq<u8>) -> Seq<u8> {
    center_x + seq![COMMA] + center_y + seq![STAR, LINE_FEED, LINE_FEED] + grid
}

/// The index of the first `byte` in `text`, or the length of `text` where
/// it holds none.
pub open spec fn first_index(text: Seq<u8>, byte: u8) -> int
    decreases text.len(),
{
    if text.len() == 0 || text[0] == byte {
        0
    } else {
        1 + first_index(text.skip(1), byte)
    }
}

/// The parts of the text of a saved game: what stands before the first
/// comma, what stands between it and the first star, and what stands after
/// that star. `None` where the text holds no star, or no comma before its
/// first star.
pub open spec fn split_parts(text: Seq<u8>) -> Option<(Seq<u8>, Seq<u8>, Seq<u8>)> {
    let star = first_index(text, STAR);
    if star >= text.len() {
        None
    } else {
        let center = text.subrange(0, star);
        let comma = first_index(center, COMMA);
        if comma >= center.len() {
            None
        } else {
            Some(
                (
                    center.subrange(0, comma),
                    center.subrange(comma + 1, star),
                    text.subrange(star + 1, text.len() as int),
                ),
            )
        }
    }
}

/// The first `byte` of `text` is where one stands with none before it, and
/// at the end where none stands at all.
pub proof fn lemma_first_index(text: Seq<u8>, byte: u8, index: int)
    requires
        0 <= index <= text.len(),
        forall|i: int| 0 <= i < index ==> text[i] != byte,
        index < text.len() ==> text[index] == byte,
    ensures
        first_index(text, byte) == index,
    decreases text.len(),
{
    if index > 0 {
        assert(text[0] != byte);
        let rest = text.skip(1);
        assert forall|i: int| 0 <= i < index - 1 implies rest[i] != byte by {
            assert(rest[i] == text[i + 1]);
        }
        lemma_first_index(rest, byte, index - 1);
    }
}

/// Empty lines before the text of a grid count for nothing.
pub proof fn lemma_parsed_after_feeds(text: Seq<u8>, chunks: Map<ChunkPos, ChunkView>)
    ensures
        parsed(seq![LINE_FEED, LINE_FEED] + text, chunks) == parsed(text, chunks),
{
    let fed = seq![LINE_FEED, LINE_FEED] + text;
    assert(fed[0] == LINE_FEED);
    assert(fed.skip(1) =~= seq![LINE_FEED] + text);
    assert(fed.skip(1)[0] == LINE_FEED);
    assert(fed.skip(1).skip(1) =~= text);
    assert(parsed(fed, chunks) == parsed(fed.skip(1), chunks));
    assert(parsed(fed.skip(1), chunks) == parsed(text, chunks));
}

/// The text of a saved game splits into what it was made of, where the
/// coordinates hold no star and the first no comma.
pub proof fn lemma_save_splits(center_x: Seq<u8>, center_y: Seq<u8>, grid: Seq<u8>)
    requires
        !center_x.contains(COMMA),
        !center_x.contains(STAR),
        !center_y.contains(STAR),
    ensures
        split_parts(save_text_of(center_x, center_y, grid)) == Some(
            (center_x, center_y, seq![LINE_FEED, LINE_FEED] + grid),
        ),
{
    let text = save_text_of(center_x, center_y, grid);
    let star: int = (center_x.len() + 1 + center_y.len()) as int;
    assert forall|i: int| 0 <= i < star implies text[i] != STAR by {
        if i < center_x.len() {
            assert(center_x.contains(center_x[i]));
        } else if i > center_x.len() {
            assert(center_y.contains(center_y[i - center_x.len() - 1]));
        }
    }
    assert(text[star] == STAR);
    lemma_first_index(text, STAR, star);
    let center = text.subrange(0, star);
    assert forall|i: int| 0 <= i < center_x.len() implies center[i] != COMMA by {
        assert(center_x.contains(center_x[i]));
    }
    assert(center[center_x.len() as int] == COMMA);
    lemma_first_index(center, COMMA, center_x.len() as int);
    assert(center.subrange(0, center_x.len() as int) =~= center_x);
    assert(center.subrange(center_x.len() as int + 1, star) =~= center_y);
    assert(text.subrange(star + 1, text.len() as int) =~= seq![LINE_FEED, LINE_FEED] + grid);
}

/// Saving a game and loading the text gives the game back: the text made
/// of the camera's center and the text of a grid splits into that center
/// and a text that is read as the chunks of that grid.
pub proof fn lemma_save_round_trip(
    center_x: Seq<u8>,
    center_y: Seq<u8>,
    chunks: Map<ChunkPos, ChunkView>,
    order: Seq<ChunkPos>,
)
    requires
        !center_x.contains(COMMA),
        !center_x.contains(STAR),
        !center_y.contains(STAR),
        valid_chunks(chunks),
        order.to_set() == chunks.dom(),
    ensures
        split_parts(save_text_of(center_x, center_y, text_of(chunks, order))) matches Some(parts)
            && parts.0 == center_x && parts.1 == center_y && parsed(parts.2, Map::empty())
            == Some(chunks),
{
    lemma_save_splits(center_x, center_y, text_of(chunks, order));
    lemma_parsed_after_feeds(text_of(chunks, order), Map::empty());
    lemma_text_round_trip(chunks, order);
}

/// The parts of the text of a saved game.
pub struct SaveParts {
    /// The first coordinate of the camera's center, as it was written.
    pub center_x: Vec<u8>,
    /// The second coordinate of the camera's center, as it was written.
    pub center_y: Vec<u8>,
    /// The text of the grid.
    pub grid: Vec<u8>,
}

/// Returns the index of the first `byte` in the first `end` bytes of
/// `text`, or `end` where they hold none.
pub fn find_first(text: &Vec<u8>, byte: u8, end: usize) -> (index: usize)
    requires
        end <= text.len(),
    ensures
        index == first_index(text@.subrange(0, end as int), byte),
        index <= end,
{
    let mut index: usize = 0;
    while index < end && text[index] != byte
        invariant
            0 <= index <= end <= text.len(),
            forall|i: int| 0 <= i < index ==> text@[i] != byte,
        decreases end - index,
    {
        index += 1;
    }
    proof {
        lemma_first_index(text@.subrange(0, end as int), byte, index as int);
    }
    index
}

/// Returns a copy of the bytes of `text` from `from` up to `to`.
pub fn copy_range(text: &Vec<u8>, from: usize, to: usize) -> (copy: Vec<u8>)
    requires
        from <= to <= text.len(),
    ensures
        copy@ == text@.subrange(from as int, to as int),
{
    let mut copy: Vec<u8> = Vec::new();
    let mut index: usize = from;
    while index < to
        invariant
            from <= index <= to <= text.len(),
            copy@ == text@.subrange(from as int, index as int),
        decreases to - index,
    {
        copy.push(text[index]);
        assert(copy@ =~= text@.subrange(from as int, index + 1));
        index += 1;
    }
    copy
}

/// Returns the text of a saved game, made of the two coordinates of the
/// camera's center as they are written and of the text of the grid.
pub fn join_save(center_x: &Vec<u8>, center_y: &Vec<u8>, grid: &Vec<u8>) -> (text: Vec<u8>)
    ensures
        text@ == save_text_of(center_x@, center_y@, grid@),
{
    let mut text = copy_range(center_x, 0, center_x.len());
    text.push(COMMA);
    let mut y = copy_range(center_y, 0, center_y.len());
    text.append(&mut y);
    text.push(STAR);
    text.push(LINE_FEED);
    text.push(LINE_FEED);
    let mut rest = copy_range(grid, 0, grid.len());
    text.append(&mut rest);
    assert(center_x@.subrange(0, center_x.len() as int) =~= center_x@);
    assert(center_y@.subrange(0, center_y.len() as int) =~= center_y@);
    assert(grid@.subrange(0, grid.len() as int) =~= grid@);
    assert(text@ =~= save_text_of(center_x@, center_y@, grid@));
    text
}

/// Splits the text of a saved game into its parts. Returns `None` where
/// the text holds no star, or no comma before its first star.
pub fn split_save(text: &Vec<u8>) -> (parts: Option<SaveParts>)
    ensures
        match parts {
            Some(parts) => split_parts(text@) == Some(
                (parts.center_x@, parts.center_y@, parts.grid@),
            ),
            None => split_parts(text@) is None,
        },
{
    let star = find_first(text, STAR, text.len());
    assert(text@.subrange(0, text.len() as int) =~= text@);
    if star >= text.len() {
        return None;
    }
    let comma = find_first(text, COMMA, star);
    if comma >= star {
        return None;
    }
    let ghost center = text@.subrange(0, star as int);
    assert(center.subrange(0, comma as int) =~= text@.subrange(0, comma as int));
    assert(center.subrange(comma + 1, star as int) =~= text@.subrange(comma + 1, star as int));
    Some(
        SaveParts {
            center_x: copy_range(text, 0, comma),
            center_y: copy_range(text, comma + 1, star),
            grid: copy_range(text, star + 1, text.len()),
        },
    )
}

impl Grid {
    /// Returns the grid as text: a line for each chunk that exists, the
    /// chunks in no particular order.
    pub fn to_text(&self) -> (text: Vec<u8>)
        ensures
            valid_chunks(self@),
            exists|order: Seq<ChunkPos>|
                order.no_duplicates() && order.to_set() == self@.dom() && text@ == #[trigger] text_of(
                    self@,
                    order,
                ),
    {
        let positions = self.chunk_positions();
        let mut text: Vec<u8> = Vec::new();
        let mut k: usize = 0;
        while k < positions.len()
            invariant
                0 <= k <= positions.len(),
                positions@.to_set() == self@.dom(),
                text@ == text_of(self@, positions@.subrange(0, k as int)),
                forall|i: int|
                    0 <= i < k ==> self@[#[trigger] positions[i]].tiles.len() == CHUNK_AREA
                        && all_valid(self@[positions[i]].tiles),
            decreases positions.len() - k,
        {
            let pos = positions[k];
            let ghost written = text@;
            proof {
                assert(positions@.to_set().contains(pos));
                assert(positions@.subrange(0, k + 1).drop_last() =~= positions@.subrange(
                    0,
                    k as int,
                ));
                assert(positions@.subrange(0, k + 1).last() == pos);
            }
            match self.get_chunk(pos) {
                Some(chunk) => {
                    proof {
                        chunk.lemma_len();
                    }
                    push_hex(&mut text, chunk_key(pos), KEY_LEN as u8);
                    text.push(
                        if chunk.all_mines_placed() {
                            PLACED
                        } else {
                            NOT_PLACED
                        },
                    );
                    chunk.push_bytes(&mut text);
                    text.push(LINE_FEED);
                    assert(text@ =~= written + record_of(pos, self@[pos]) + seq![LINE_FEED]);
                },
                None => {},
            }
            k += 1;
        }
        proof {
            assert(positions@.subrange(0, positions.len() as int) =~= positions@);
            assert forall|pos: ChunkPos| #[trigger] self@.contains_key(pos) implies self@[pos].tiles.len()
                == CHUNK_AREA && all_valid(self@[pos].tiles) by {
                assert(positions@.to_set().contains(pos));
                let i = choose|i: int| 0 <= i < positions.len() && positions[i] == pos;
                assert(self@[positions[i]].tiles.len() == CHUNK_AREA);
            }
        }
        text
    }

    /// Reads a grid from text. Returns `None` where `text` is no text of a
    /// grid.
    pub fn from_text(text: &Vec<u8>) -> (grid: Option<Grid>)
        ensures
            match grid {
                Some(grid) => parsed(text@, Map::empty()) == Some(grid@),
                None => parsed(text@, Map::empty()) is None,
            },
    {
        let mut grid = Grid::new();
        let mut at: usize = 0;
        assert(text@.skip(0) =~= text@);
        while at < text.len()
            invariant
                0 <= at <= text.len(),
                parsed(text@, Map::empty()) == parsed(text@.skip(at as int), grid@),
            decreases text.len() - at,
        {
            let ghost rest = text@.skip(at as int);
            assert(rest[0] == text@[at as int]);
            if text[at] == LINE_FEED {
                assert(rest.skip(1) =~= text@.skip(at + 1));
                at += 1;
            } else {
                if text.len() - at < RECORD_LEN {
                    return None;
                }
                let ghost line = rest.subrange(0, RECORD_LEN as int);
                proof {
                    assert(line.subrange(0, KEY_LEN as int) =~= text@.subrange(
                        at as int,
                        at + KEY_LEN,
                    ));
                    assert(line.subrange(KEY_LEN + 1, RECORD_LEN as int) =~= text@.subrange(
                        at + KEY_LEN + 1,
                        at + KEY_LEN + 1 + CHUNK_AREA,
                    ));
                    assert(line[KEY_LEN as int] == text@[at + KEY_LEN]);
                    assert(rest.skip(RECORD_LEN as int) =~= text@.skip(at + RECORD_LEN));
                    if rest.len() > RECORD_LEN {
                        assert(rest[RECORD_LEN as int] == text@[at + RECORD_LEN]);
                    }
                }
                let key = match parse_hex(text, at) {
                    Some(key) => key,
                    None => return None,
                };
                let mark = text[at + KEY_LEN];
                if mark != PLACED && mark != NOT_PLACED {
                    return None;
                }
                let chunk = match Chunk::from_bytes(text, at + KEY_LEN + 1, mark == PLACED) {
                    Some(chunk) => chunk,
                    None => return None,
                };
                if text.len() - at > RECORD_LEN && text[at + RECORD_LEN] != LINE_FEED {
                    return None;
                }
                let pos = chunk_of_key(key);
                let slot = grid.get_chunk_mut(pos);
                *slot = chunk;
                at += RECORD_LEN;
            }
        }
        assert(text@.skip(at as int) =~= Seq::<u8>::empty());
        Some(grid)
    }
}

} // verus!
