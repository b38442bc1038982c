//! Finds directories that hold leftover embedded-browser runtime files, using
//! the answers of a path index, and reports their sizes as a stream of events.

pub mod error;
pub mod extract;
pub mod folder;
pub mod icons;
pub mod index;
pub mod path;
pub mod resolve;
pub mod scan;
pub mod size;
pub mod stream;
pub mod text;
