//! Argument handling and image operations of a small image tool: resizing,
//! format conversion, JPEG recompression and DPI tagging.

pub mod decimal;
pub mod format;
pub mod picture;
pub mod command;
