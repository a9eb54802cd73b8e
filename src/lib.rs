//! A Quarto board engine: a 4x4 board packed into one `u128`, the rules for
//! placing pieces and detecting a winning line, and a list view for inspection.

pub mod board;
pub mod game;
pub mod packing;
pub mod player;
pub mod printable;
pub mod strategy;
pub mod theorems;
pub mod ui;
