//! Backlight brightness arithmetic: preset levels, adjustments, and the
//! decimal text of the brightness control file.

pub mod adjust;
pub mod command;
pub mod number;
pub mod steps;
pub mod store;
pub mod text;
