//! Vector-path geometry: drawing commands, the segments they denote, and
//! adaptive flattening of Bézier curves into polylines, all on an integer
//! fixed-point coordinate grid.

pub mod num;
pub mod path;
pub mod point;
pub mod segment;
pub mod subdivision;
