//! Render a filesystem path as a compact, segmented display line: the home
//! directory shown as `~`, at most a bounded number of segments, joined by a
//! separator.
pub mod render;
pub mod segment;
pub mod style;
