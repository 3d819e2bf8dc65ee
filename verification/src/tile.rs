//! One cell of the plane and its one-byte encoding.
//!
//! The encoding is printable ASCII, so that a row of tiles reads as a line
//! of text:
//!
//! | tile                    | byte                          |
//! |-------------------------|-------------------------------|
//! | `Mine`                  | `!`                           |
//! | `Number(0)`             | space                         |
//! | `Number(1..=9)`         | `1`..`9`                      |
//! | `Number(10..=40)`       | `A`.. (`0x41 + n - 10`)       |
//! | `Covered(flag, hidden)` | `0x60 + 4 * flag + hidden`    |

use vstd::prelude::*;

verus! {

/// Largest count that `Tile::Number` can carry through the encoding.
pub const MAX_NUMBER: u8 = 40;

/// Flag or question mark annotation added by the player.
#[derive(Debug, Copy, Clone, PartialEq, Eq, Hash, Structural)]
pub enum FlagState {
    /// No player annotation.
    Blank,
    /// Flag annotation.
    Flag,
    /// Question mark annotation.
    Question,
}

impl FlagState {
    /// The two-bit code of the annotation.
    pub open spec fn code(self) -> u8 {
        match self {
            FlagState::Blank => 0,
            FlagState::Flag => 1,
            FlagState::Question => 2,
        }
    }

    /// The annotation with the given two-bit code; `Blank` stands in for the
    /// unused code 3.
    pub open spec fn of_code(code: u8) -> FlagState {
        if code == 1 {
            FlagState::Flag
        } else if code == 2 {
            FlagState::Question
        } else {
            FlagState::Blank
        }
    }

    /// The two-bit code of the annotation.
    pub fn bits(self) -> (code: u8)
        ensures
            code == self.code(),
    {
        match self {
            FlagState::Blank => 0,
            FlagState::Flag => 1,
            FlagState::Question => 2,
        }
    }

    /// Reads an annotation from the low two bits of `x`.
    pub fn from(x: u8) -> (flag: FlagState)
        requires
            x % 4 != 3,
        ensures
            flag == FlagState::of_code(x % 4),
            flag.code() == x % 4,
    {
        let low: u8 = x & 0b11;
        assert(low == x % 4) by (bit_vector)
            requires
                low == x & 0b11,
        ;
        if low == 0 {
            FlagState::Blank
        } else if low == 1 {
            FlagState::Flag
        } else {
            FlagState::Question
        }
    }
}

impl Default for FlagState {
    fn default() -> (flag: FlagState)
        ensures
            flag == FlagState::Blank,
    {
        FlagState::Blank
    }
}

/// Underlying state hidden from the player.
#[derive(Debug, Copy, Clone, PartialEq, Eq, Hash, Structural)]
pub enum HiddenState {
    /// Not decided yet: mines have not been placed here.
    Unknown,
    /// Decided to be safe.
    Safe,
    /// Decided to be a mine.
    Mine,
}

impl HiddenState {
    /// The two-bit code of the state.
    pub open spec fn code(self) -> u8 {
        match self {
            HiddenState::Unknown => 0,
            HiddenState::Safe => 1,
            HiddenState::Mine => 2,
        }
    }

    /// The state with the given two-bit code; `Unknown` stands in for the
    /// unused code 3.
    pub open spec fn of_code(code: u8) -> HiddenState {
        if code == 1 {
            HiddenState::Safe
        } else if code == 2 {
            HiddenState::Mine
        } else {
            HiddenState::Unknown
        }
    }

    /// What an undecided cell becomes once the draw for it is known.
    pub open spec fn decided(is_mine: bool) -> HiddenState {
        if is_mine {
            HiddenState::Mine
        } else {
            HiddenState::Safe
        }
    }

    /// The two-bit code of the state.
    pub fn bits(self) -> (code: u8)
        ensures
            code == self.code(),
    {
        match self {
            HiddenState::Unknown => 0,
            HiddenState::Safe => 1,
            HiddenState::Mine => 2,
        }
    }

    /// Reads a hidden state from the low two bits of `x`.
    pub fn from(x: u8) -> (hidden: HiddenState)
        requires
            x % 4 != 3,
        ensures
            hidden == HiddenState::of_code(x % 4),
            hidden.code() == x % 4,
    {
        let low: u8 = x & 0b11;
        assert(low == x % 4) by (bit_vector)
            requires
                low == x & 0b11,
        ;
        if low == 0 {
            HiddenState::Unknown
        } else if low == 1 {
            HiddenState::Safe
        } else {
            HiddenState::Mine
        }
    }
}

impl Default for HiddenState {
    fn default() -> (hidden: HiddenState)
        ensures
            hidden == HiddenState::Unknown,
    {
        HiddenState::Unknown
    }
}

/// Tile in the Minesweeper grid.
#[derive(Debug, Copy, Clone, PartialEq, Eq, Hash, Structural)]
pub enum Tile {
    /// Covered tile.
    Covered(FlagState, HiddenState),
    /// Revealed safe tile, with the number of mines around it.
    Number(u8),
    /// Revealed mine tile.
    Mine,
}

impl Tile {
    /// The tile of a cell that nothing has touched yet.
    pub open spec fn untouched() -> Tile {
        Tile::Covered(FlagState::Blank, HiddenState::Unknown)
    }

    /// A tile that the encoding can carry: every tile but a `Number` above
    /// `MAX_NUMBER`.
    pub open spec fn valid(self) -> bool {
        self matches Tile::Number(n) ==> n <= MAX_NUMBER
    }

    /// The byte that stands for the tile.
    pub open spec fn encode(self) -> u8 {
        match self {
            Tile::Covered(f, h) => (0x60 + 4 * f.code() + h.code()) as u8,
            Tile::Number(n) => if n == 0 {
                0x20u8
            } else if n < 10 {
                (0x30 + n) as u8
            } else {
                (0x41 + (n - 10)) as u8
            },
            Tile::Mine => 0x21u8,
        }
    }

    /// Whether `byte` stands for some valid tile.
    pub open spec fn is_encoding(byte: u8) -> bool {
        ||| byte == 0x20
        ||| byte == 0x21
        ||| 0x31 <= byte <= 0x39
        ||| 0x41 <= byte <= 0x5f
        ||| (0x60 <= byte <= 0x6a && byte % 4 != 3)
    }

    /// The tile that `byte` stands for.
    pub open spec fn decode(byte: u8) -> Tile {
        if byte == 0x21 {
            Tile::Mine
        } else if byte == 0x20 {
            Tile::Number(0)
        } else if byte <= 0x39 {
            Tile::Number((byte - 0x30) as u8)
        } else if byte < 0x60 {
            Tile::Number((byte - 0x41 + 10) as u8)
        } else {
            Tile::Covered(FlagState::of_code((byte / 4 % 4) as u8), HiddenState::of_code(byte % 4))
        }
    }

    /// Whether the tile is covered and not decided yet.
    pub open spec fn undecided(self) -> bool {
        self matches Tile::Covered(_, h) && h == HiddenState::Unknown
    }

    /// Whether the tile is covered and carries a flag.
    pub open spec fn flagged(self) -> bool {
        self matches Tile::Covered(f, _) && f == FlagState::Flag
    }

    /// Whether the tile has been revealed to the player.
    pub open spec fn is_revealed(self) -> bool {
        !(self is Covered)
    }

    /// What `toggle_flag` makes of the tile.
    pub open spec fn toggled(self) -> Tile {
        match self {
            Tile::Covered(FlagState::Blank, h) => Tile::Covered(FlagState::Flag, h),
            Tile::Covered(FlagState::Flag, h) => Tile::Covered(FlagState::Question, h),
            Tile::Covered(FlagState::Question, h) => Tile::Covered(FlagState::Blank, h),
            _ => self,
        }
    }

    /// Whether the tile holds a mine, revealed or not.
    pub open spec fn holds_mine(self) -> bool {
        self == Tile::Mine || (self matches Tile::Covered(_, h) && h == HiddenState::Mine)
    }

    /// Whether the player treats the tile as a mine: it is flagged, or it is
    /// a revealed mine.
    pub open spec fn assumed_mine(self) -> bool {
        self == Tile::Mine || (self matches Tile::Covered(f, _) && f == FlagState::Flag)
    }

    /// What the tile becomes when mines are placed and the draw for its cell
    /// is `is_mine`: an undecided cell is decided, every other tile stays.
    pub open spec fn with_mine_placed(self, is_mine: bool) -> Tile {
        match self {
            Tile::Covered(f, HiddenState::Unknown) => Tile::Covered(f, HiddenState::decided(is_mine)),
            _ => self,
        }
    }

    /// Whether `after` is what placing mines can make of this tile: the tile
    /// decided by one of the two draws.
    pub open spec fn mine_placed_into(self, after: Tile) -> bool {
        after == self.with_mine_placed(true) || after == self.with_mine_placed(false)
    }

    /// Whether revealing can make `after` of this tile: a revealed tile
    /// stays as it is; a covered tile keeps its annotation, and what is
    /// hidden under it changes only from undecided to decided; only a tile
    /// without a flag is revealed, as a number if it hid no mine and as a
    /// mine if it hid one.
    pub open spec fn settles_into(self, after: Tile) -> bool {
        match self {
            Tile::Covered(f, h) => match after {
                Tile::Covered(f2, h2) => f2 == f && (h2 == h || h == HiddenState::Unknown),
                Tile::Number(_) => f != FlagState::Flag && h != HiddenState::Mine,
                Tile::Mine => f != FlagState::Flag && h != HiddenState::Safe,
            },
            _ => after == self,
        }
    }

    /// Whether `after` is this tile, or this tile decided by a draw.
    pub open spec fn kept_or_mine_placed(self, after: Tile) -> bool {
        after == self || self.mine_placed_into(after)
    }

    /// Packs the tile into a single byte.
    pub fn pack(self) -> (packed: PackedTile)
        requires
            self.valid(),
        ensures
            packed@ == self,
            packed.byte() == self.encode(),
    {
        proof {
            Tile::encoding_round_trip(self);
        }
        match self {
            Tile::Covered(f, h) => {
                let fb: u8 = f.bits();
                let hb: u8 = h.bits();
                let byte: u8 = 0x60 | fb << 2 | hb;
                assert(byte == 0x60 + 4 * fb + hb) by (bit_vector)
                    requires
                        fb < 4,
                        hb < 4,
                        byte == 0x60 | fb << 2 | hb,
                ;
                PackedTile(byte)
            },
            Tile::Number(n) => {
                if n == 0 {
                    PackedTile(0x20)
                } else if n < 10 {
                    PackedTile(n + 0x30)
                } else {
                    PackedTile(n - 10 + 0x41)
                }
            },
            Tile::Mine => PackedTile(0x21),
        }
    }

    /// Toggles the player's annotation on the tile: none, flag, question
    /// mark, and round again. A revealed tile stays as it is.
    #[must_use]
    pub fn toggle_flag(self) -> (toggled: Tile)
        ensures
            toggled == self.toggled(),
    {
        match self {
            Tile::Covered(f, h) => {
                let new_f = match f {
                    FlagState::Blank => FlagState::Flag,
                    FlagState::Flag => FlagState::Question,
                    FlagState::Question => FlagState::Blank,
                };
                Tile::Covered(new_f, h)
            },
            _ => self,
        }
    }

    /// Returns `true` if the tile is a mine or `false` if it might not be.
    pub fn is_mine(self) -> (mine: bool)
        ensures
            mine == self.holds_mine(),
    {
        match self {
            Tile::Covered(_, HiddenState::Mine) => true,
            Tile::Mine => true,
            _ => false,
        }
    }

    /// Returns `true` if the tile is a flag or a revealed mine.
    pub fn is_assumed_mine(self) -> (assumed: bool)
        ensures
            assumed == self.assumed_mine(),
    {
        match self {
            Tile::Covered(FlagState::Flag, _) => true,
            Tile::Mine => true,
            _ => false,
        }
    }

    /// Decides an undecided cell by the draw made for it; any other tile is
    /// returned as it is.
    #[must_use]
    pub fn place_mine(self, is_mine: bool) -> (placed: Tile)
        ensures
            placed == self.with_mine_placed(is_mine),
    {
        match self {
            Tile::Covered(f, HiddenState::Unknown) => {
                if is_mine {
                    Tile::Covered(f, HiddenState::Mine)
                } else {
                    Tile::Covered(f, HiddenState::Safe)
                }
            },
            _ => self,
        }
    }

    /// Encoding and then decoding a valid tile gives the tile back, and the
    /// byte in between is one that stands for a tile.
    pub proof fn encoding_round_trip(tile: Tile)
        requires
            tile.valid(),
        ensures
            Tile::is_encoding(tile.encode()),
            Tile::decode(tile.encode()) == tile,
    {
    }

    /// Decoding a byte that stands for a tile gives a valid tile, and
    /// encoding that tile gives the byte back: no two bytes stand for one
    /// tile.
    pub proof fn decoding_round_trip(byte: u8)
        requires
            Tile::is_encoding(byte),
        ensures
            Tile::decode(byte).valid(),
            Tile::decode(byte).encode() == byte,
    {
    }

    /// The three kinds of tile keep to ranges of bytes that do not meet:
    /// `!` for a revealed mine, `0x20..0x60` without `!` for numbers, and
    /// `0x60` upward for covered tiles.
    pub proof fn encoding_ranges(tile: Tile)
        requires
            tile.valid(),
        ensures
            tile is Mine <==> tile.encode() == 0x21,
            tile is Number <==> 0x20 <= tile.encode() < 0x60 && tile.encode() != 0x21,
            tile is Covered <==> 0x60 <= tile.encode(),
    {
    }
}

impl Default for Tile {
    fn default() -> (tile: Tile)
        ensures
            tile == Tile::untouched(),
    {
        Tile::Covered(FlagState::Blank, HiddenState::Unknown)
    }
}

/// Tile in the Minesweeper grid, packed into a single byte.
#[derive(Debug, Copy, Clone, PartialEq, Eq, Hash)]
pub struct PackedTile(pub(crate) u8);

impl View for PackedTile {
    type V = Tile;

    /// The tile that the byte stands for.
    open spec fn view(&self) -> Tile {
        Tile::decode(self.byte())
    }
}

impl PackedTile {
    /// The byte held.
    pub closed spec fn byte(self) -> u8 {
        self.0
    }

    #[verifier::type_invariant]
    pub closed spec fn holds_encoding(self) -> bool {
        Tile::is_encoding(self.0)
    }

    /// Returns the byte held.
    pub fn to_byte(self) -> (byte: u8)
        ensures
            byte == self.byte(),
            Tile::is_encoding(byte),
    {
        proof {
            use_type_invariant(&self);
        }
        self.0
    }

    /// Returns the packed tile that holds `byte`, if `byte` stands for a
    /// tile.
    pub fn from_byte(byte: u8) -> (packed: Option<PackedTile>)
        ensures
            match packed {
                Some(packed) => Tile::is_encoding(byte) && packed.byte() == byte,
                None => !Tile::is_encoding(byte),
            },
    {
        if byte == 0x20 || byte == 0x21 || (0x31 <= byte && byte <= 0x39) || (0x41 <= byte && byte
            <= 0x5f) || (0x60 <= byte && byte <= 0x6a && byte % 4 != 3) {
            Some(PackedTile(byte))
        } else {
            None
        }
    }

    /// Unpacks the `Tile` from a single byte.
    pub fn unpack(self) -> (tile: Tile)
        ensures
            tile == self@,
            tile.valid(),
            tile.encode() == self.byte(),
    {
        proof {
            use_type_invariant(&self);
            Tile::decoding_round_trip(self.0);
        }
        let byte: u8 = self.0;
        if byte == 0x21 {
            Tile::Mine
        } else if byte == 0x20 {
            Tile::Number(0)
        } else if byte <= 0x39 {
            Tile::Number(byte - 0x30)
        } else if byte < 0x60 {
            Tile::Number(byte - 0x41 + 10)
        } else {
            assert((byte >> 2) % 4 == byte / 4 % 4) by (bit_vector);
            assert(byte / 4 % 4 != 3);
            Tile::Covered(FlagState::from(byte >> 2), HiddenState::from(byte))
        }
    }
}

impl Default for PackedTile {
    fn default() -> (packed: PackedTile)
        ensures
            packed@ == Tile::untouched(),
    {
        Tile::Covered(FlagState::Blank, HiddenState::Unknown).pack()
    }
}

} // verus!
