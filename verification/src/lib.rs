pub mod color;
pub mod glyphs;
pub mod settings;
mod rng;
pub mod drops;
pub mod field;
pub mod cli;
