//! A streaming G-code rewriter that injects per-feature acceleration control
//! commands into slicer output, so that the machine controller can vary its
//! motion limits by the kind of toolpath being printed.
//!
//! The crate detects which slicer produced a file from its header comment,
//! merges externally supplied acceleration settings with overrides embedded
//! in the file's leading comments, and then rewrites the file line by line:
//! feature-marker comments are followed by a control command, travel moves
//! are preceded by one, stale control directives are dropped, and a report of
//! the settings and of the number of insertions is appended.

pub mod engine;
pub mod gcode;
pub mod markers;
pub mod patterns;
pub mod preprocess;
pub mod slicers;
pub mod text;
pub mod types;
