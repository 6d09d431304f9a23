//! The rules behind a fast image viewer: which pictures a folder holds and in
//! what order, which embedded JPEG of a camera RAW file is shown, what the
//! metadata panel says, how decoded pictures are cached around the one on
//! screen, how stars and removals change a list, and how a benchmark run moves
//! through its phases.

pub mod animation;
pub mod bench;
pub mod cache;
pub mod culling;
pub mod decode;
pub mod file_io;
pub mod metadata;
pub mod metadata_panel;
pub mod pane;
pub mod path;
pub mod picked;
pub mod raw;
pub mod settings;
pub mod stars;
pub mod text;
pub mod theme;
pub mod trash_bin;
