//! Rules engine of a falling-block puzzle: the seven piece shapes, their
//! rotation, and the playing field with its collision, landing and
//! row-clearing rules.

pub mod figures;
pub mod glass;
mod random;
