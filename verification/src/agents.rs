//! Players that pick their own moves.

pub mod move_gen;
