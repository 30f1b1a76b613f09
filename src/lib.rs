//! Codecs between a human-editable text form and validated value types:
//! intervals with open or closed bounds, exact fractions, physical
//! quantities with units, camera matrices and non-empty strings.

pub mod camera;
pub mod error;
pub mod fraction;
pub mod interval;
pub mod non_empty_string;
pub mod quantity;
pub mod text;
