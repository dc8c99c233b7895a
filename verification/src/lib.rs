//! The core of a Space Invaders game for the terminal, verified with Verus.
//!
//! The game is a board of [`NUM_COLS`] by [`NUM_ROWS`] cells, with column 0
//! on the left and row 0 at the top. On it live the player's ship with its
//! lasers ([`player`], [`laser`]) and the fleet of invaders ([`enemies`]);
//! [`game`] ties them to keys and to the passing of time, and [`render`]
//! says what to paint for a state of the game. Nothing in the crate reads a
//! clock, a key or a file, and nothing paints or plays: whoever drives the
//! game hands in keys and durations and gets scenes and sound cues back.
//!
//! Every type that changes has a mathematical view (`LaserView`,
//! `PlayerView`, `FleetView`, `GameView`), and every operation is specified
//! as a function on views. The lemmas that follow the operations in each
//! module state what these functions add up to over a whole game.
//!
//! The countdown timers are those of the `rusty_time` crate, and the closing
//! panel is laid out by `ratatui`; [`clock`] and [`render`] say what is
//! taken on trust about them.

use vstd::prelude::*;

pub mod clock;
pub mod enemies;
pub mod frame;
pub mod game;
pub mod laser;
pub mod player;
pub mod render;
pub mod sound;

verus! {

/// Number of rows of the board.
pub const NUM_ROWS: usize = 20;

/// Number of columns of the board.
pub const NUM_COLS: usize = 40;

} // verus!
