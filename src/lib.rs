//! Streaming statistics: a commutative tracker of the least and greatest
//! samples seen, with a running count.

pub mod commute;
pub mod laws;
pub mod minmax;

pub use commute::Commute;
pub use minmax::MinMax;
