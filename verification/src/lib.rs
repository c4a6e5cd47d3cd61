//! A charting engine for one station-year of daily weather observations.

pub mod arith;
pub mod caption;
pub mod chart;
pub mod color;
pub mod decode;
pub mod gsod;
pub mod parse;
pub mod range;
pub mod render;
pub mod scale;
pub mod series;
pub mod station;
pub mod text;
pub mod time;

pub use chart::{Chart, ChartError, Options};
pub use color::Color;
pub use range::{Range, Unit, ONE};
pub use render::Direction;
pub use scale::{Scale, ScaleError};
pub use series::Series;
