//! Files and folders of pictures.

pub mod format;
pub mod frames;
pub mod listing;
pub mod load;
pub mod log_buffer;
pub mod png;
pub mod webp;
