//! Minesweeper on an unbounded plane.
//!
//! The plane is kept as square chunks of tiles that come into being when
//! they are first written to, and the mines of a chunk are placed when a
//! tile in it or beside it is first revealed. Revealing a tile that has no
//! mine around it reveals the region around it, over as many chunks as it
//! takes.
//!
//! - [`tile`]: a tile and its one-byte encoding.
//! - [`pos`]: coordinates of tiles and of chunks.
//! - [`chunk`]: a chunk of tiles, and placing mines in it.
//! - [`grid`]: the grid of chunks.
//! - [`rules`]: what revealing may and must do to the grid.
//! - [`flood`]: why revealing keeps to its rules.
//! - [`uncover`]: counting mines and revealing tiles.
//! - [`input`]: the mouse drag in progress and the keys that are held.
//! - [`game`]: what each input event does to the game.
//! - [`hex`] and [`save`]: the grid and the saved game as text.
//! - [`sprites`]: the sprites that draw the tiles in sight.

pub mod hex;
pub mod tile;
pub mod pos;
pub mod chunk;
pub mod grid;
pub mod rules;
pub mod flood;
pub mod uncover;
pub mod input;
pub mod game;
pub mod save;
pub mod sprites;
