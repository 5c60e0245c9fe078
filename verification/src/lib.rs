//! Rules engine and game-tree search for the sowing game Kalah.
//!
//! The board is always stored from the point of view of the side to move
//! ("our" houses and store against "their" houses and store); a flip
//! relabels the two sides.  Every executable function carries a contract
//! over the mathematical model of the game: positions and their moves in
//! [`rules`], the values of positions in [`valuation`], the results of
//! the searches in [`search`] and [`pvs`].

pub mod agent;
pub mod board;
pub mod commands;
pub mod evaluation;
pub mod laws;
pub mod line;
pub mod moves;
pub mod protocol;
pub mod pvs;
pub mod random;
pub mod rules;
pub mod search;
pub mod sowing;
pub mod state;
pub mod text;
pub mod text_laws;
pub mod valuation;
