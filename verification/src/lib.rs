//! A verified 2D ray-bouncing core: rays emitted from a point reflect off
//! line-segment mirrors, producing a chain of drawable segments.
//!
//! All geometry is carried out in exact rational arithmetic over `i128`
//! numerators and denominators, so every contract speaks about the precise
//! mathematical value of each coordinate.

pub mod field;
pub mod generate;
pub mod mirror;
pub mod rational;
pub mod ray;
pub mod resolve;
pub mod simulate;
pub mod vector;
