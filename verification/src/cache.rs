//! Decoded pictures kept around the one on screen.

pub mod coverage;
pub mod entry;
pub mod index;
pub mod lru;
pub mod slider;
pub mod thumbnails;
pub mod window;
