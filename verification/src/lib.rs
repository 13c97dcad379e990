//! Verified rendering of two small vector-graphics charts: a proportional
//! (pie) chart of energy-generation sources with its legend, and a
//! historical/forecast carbon-intensity time-series chart.
//!
//! All geometry is computed in exact integer or fixed-point arithmetic, and
//! every public function's output is pinned down by a specification-level
//! construction of the returned markup.

pub mod mix;
pub mod palette;
pub mod pie;
pub mod series;
pub mod text;
pub mod timefmt;
pub mod trig;
