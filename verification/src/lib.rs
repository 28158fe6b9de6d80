//! Renders a raster image as colored text for a terminal, two vertically
//! stacked pixels per character cell, using Unicode half-block glyphs.
//!
//! The library is pure: it turns a row-major pixel sequence into rendered
//! lines and then into a stream of terminal operations. Writing those
//! operations to an actual terminal is left to the surrounding program.

pub mod printer;
