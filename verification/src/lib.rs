//! Tetromino geometry: 4x4 occupancy grids that turn and shift,
//! per-shape cycles of rotation states, and a 10x20 well that answers
//! collision and merge queries.
//!
//! Every grid, piece and well is modelled by the set of its occupied cells,
//! a `Set<(int, int)>` of `(x, y)` coordinates; the contracts are stated over
//! the functions on such sets in [`cells`].

pub mod cells;
pub mod packed;
pub mod piece;
pub mod pos;
pub mod well;

pub use packed::{Piece, PieceMap, PieceName};
