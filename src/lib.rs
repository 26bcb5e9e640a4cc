//! Conversion and export orchestration: output-path resolution, safe archive
//! extraction and creation, media probe parsing, GIF size estimation and the
//! planning of palette-based GIF transcodes.
pub mod archive;
pub mod config;
pub mod paths;
pub mod pdf;
pub mod probe;
pub mod result;
pub mod text;
pub mod video;
pub mod zip_io;
