//! A verified core for uniform 2D sprite grids: dense cell storage, an
//! exact fixed-point model of the alignment/transform algebra, visibility
//! culling, and point/rectangle picking.
//!
//! All world-space quantities are carried as fixed-point integers (see
//! [`fixed`]), so every geometric routine here is exact and its contract
//! states precisely which cell indices a query covers.

pub mod extract;
pub mod fixed;
pub mod picking;
pub mod sprite_cell;
pub mod sprite_grid;
pub mod transform;
pub mod view;
