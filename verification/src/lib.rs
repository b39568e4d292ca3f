//! An indented-tree viewer.
//!
//! Two pipelines share one rendering core:
//!
//! * a value-tree builder ([`value`]) turns one structured value (scalars,
//!   ordered sequences, mappings) into a generic labeled tree of
//!   [`value::DisplayNode`]s, which [`render`] lays out with branch
//!   connectors;
//! * a directory decorator ([`walk`]) turns a sequence of filesystem walk
//!   results into fully styled display lines, merging size, permission,
//!   version-control status ([`status`]) and icon information per entry.
//!
//! All styling is plain ANSI SGR text produced by [`style`]; the caller is
//! expected to do the actual walking and writing, handing this crate plain
//! values and printing the lines it returns.

pub mod icons;
pub mod render;
pub mod status;
pub mod style;
pub mod text;
pub mod value;
pub mod walk;
